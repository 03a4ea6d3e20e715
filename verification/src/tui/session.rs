//! The course of a session: what the event loop does between two keys, and the
//! tmux commands behind an attach.
use crate::config::model::Config;
use crate::text;
use crate::text::{concat, concat3};
use crate::tui::app::App;
use crate::tui::keys;
use crate::tui::terminals;
use crate::tui::terminals::{AttachRequest, KillRequest, TerminalsState, TmuxWindow};
use crate::tui::view;
use vstd::prelude::*;

verus! {

/// What can go wrong in the terminal, with the system's message.
#[derive(Debug, PartialEq, Eq)]
pub enum TuiError {
    Io(String),
}

impl TuiError {
    /// The error as text.
    pub fn message(&self) -> (res: String)
        ensures
            res@ == match self {
                TuiError::Io(e) => "terminal io: "@ + e@,
            },
    {
        match self {
            TuiError::Io(e) => concat("terminal io: ", e.as_str()),
        }
    }
}

/// How a session ended.
#[derive(Debug, PartialEq, Eq)]
pub enum DriveOutcome {
    Quit,
    /// The dashboard is to be rebuilt for another worktree, showing the same view.
    SwitchWorktree { path: String, view: view::View },
}

/// What the event loop does after a frame was drawn.
#[derive(Debug, PartialEq, Eq)]
pub enum DriveStep {
    /// End the session.
    Finish(DriveOutcome),
    /// Hand the terminal to tmux, then list the windows anew.
    Attach(AttachRequest),
    /// Close a tmux window, list the windows anew, and ask for the next step.
    Kill(KillRequest),
    /// Hand the terminal to lazygit, then load the diff anew.
    Lazygit,
    /// Wait for an event or the next tick.
    Wait,
}

/// The step that is due in `a`, and the state once it is taken off the list.
pub open spec fn due_step(a: App, post: App, step: DriveStep) -> bool {
    if a.quit {
        post == a && step == DriveStep::Finish(DriveOutcome::Quit)
    } else if a.pending_switch is Some {
        post == (App { pending_switch: None, ..a }) && step == DriveStep::Finish(
            DriveOutcome::SwitchWorktree { path: a.pending_switch->0, view: a.view },
        )
    } else if a.pending_attach is Some {
        post == (App { pending_attach: None, ..a }) && step == DriveStep::Attach(
            a.pending_attach->0,
        )
    } else if a.pending_kill is Some {
        post == (App { pending_kill: None, ..a }) && step == DriveStep::Kill(a.pending_kill->0)
    } else if a.pending_lazygit {
        post == (App { pending_lazygit: false, ..a }) && step == DriveStep::Lazygit
    } else {
        post == a && step == DriveStep::Wait
    }
}

/// Takes the next step: quitting goes before a worktree switch, that before an
/// attach, that before closing a window, and that before lazygit.
pub fn next_step(a: &mut App) -> (step: DriveStep)
    ensures
        due_step(*old(a), *final(a), step),
{
    if a.quit {
        return DriveStep::Finish(DriveOutcome::Quit);
    }
    if let Some(path) = a.take_pending_switch() {
        return DriveStep::Finish(DriveOutcome::SwitchWorktree { path, view: a.view });
    }
    if let Some(req) = a.take_pending_attach() {
        return DriveStep::Attach(req);
    }
    if let Some(kill) = a.take_pending_kill_window() {
        return DriveStep::Kill(kill);
    }
    if a.take_pending_lazygit() {
        return DriveStep::Lazygit;
    }
    DriveStep::Wait
}

/// A request is carried out once: the step after it is another.
pub proof fn law_steps_are_taken_once(a: App, mid: App, first: DriveStep, post: App, second: DriveStep)
    requires
        due_step(a, mid, first),
        due_step(mid, post, second),
    ensures
        first is Attach ==> !(second is Attach),
        first is Kill ==> second is Lazygit || second is Wait,
        first is Lazygit ==> second is Wait,
        first is Wait ==> second is Wait,
{
}

/// What the loop does when a session starts in a view.
pub fn entry_effect(initial: view::View) -> (effect: keys::Effect)
    ensures
        match initial {
            view::View::Terminals => effect is RefreshWindows,
            view::View::Diff => effect is LoadDiff,
            view::View::ControlCenter => effect is Nothing,
        },
{
    match initial {
        view::View::Terminals => keys::Effect::RefreshWindows,
        view::View::Diff => keys::Effect::LoadDiff,
        view::View::ControlCenter => keys::Effect::Nothing,
    }
}

/// The title of the terminal window.
pub open spec fn title_of(config: Config) -> Seq<char> {
    "scaffl — "@ + match config.project.name {
        Some(name) => name@,
        None => "scaffl"@,
    }
}

/// The title of the terminal window.
pub fn terminal_title(a: &App) -> (res: String)
    ensures
        res@ == title_of(*a.config),
{
    match &a.config.project.name {
        Some(name) => concat("scaffl — ", name.as_str()),
        None => concat("scaffl — ", "scaffl"),
    }
}

/// Whether a debug variable is switched on: set, not empty, not `0`.
pub fn debug_enabled(value: Option<&str>) -> (res: bool)
    ensures
        res == match value {
            Some(v) => v@.len() > 0 && v@ != "0"@,
            None => false,
        },
{
    match value {
        Some(v) => !v.is_empty() && *v != *"0",
        None => false,
    }
}

// ---------------------------------------------------------------------------
// Attaching
// ---------------------------------------------------------------------------
/// The name of the window that stands for a fresh shell.
pub open spec fn fresh_shell() -> Seq<char> {
    "scaffl-new"@
}

/// `session:window`.
pub open spec fn target_of(session: Seq<char>, window: Seq<char>) -> Seq<char> {
    session + ":"@ + window
}

/// The window to probe before an attach: only an existing session and a named
/// window that comes with a command.
pub open spec fn probe_of(req: AttachRequest, has_session: bool) -> Option<Seq<char>> {
    if has_session && req.window@ != fresh_shell() && req.create_with is Some {
        Some(target_of(req.session@, req.window@))
    } else {
        None
    }
}

/// The window to probe before an attach, if any.
pub fn window_probe(req: &AttachRequest, has_session: bool) -> (res: Option<String>)
    ensures
        res.deep_view() == probe_of(*req, has_session),
{
    if has_session && *req.window.as_str() != *"scaffl-new" && req.create_with.is_some() {
        Some(concat3(req.session.as_str(), ":", req.window.as_str()))
    } else {
        None
    }
}

/// The tmux command that creates what an attach needs; none when it is there.
pub open spec fn creation_of(
    req: AttachRequest,
    has_session: bool,
    has_window: bool,
) -> Option<Seq<Seq<char>>> {
    let fresh = req.window@ == fresh_shell();
    let create = req.create_with.deep_view();
    if !has_session {
        let base = seq!["new-session"@, "-d"@, "-s"@, req.session@];
        let named = if fresh {
            base
        } else {
            base.push("-n"@).push(req.window@)
        };
        Some(
            match create {
                Some(c) => named.push(c),
                None => named,
            },
        )
    } else {
        match create {
            None => None,
            Some(c) => if fresh {
                Some(seq!["new-window"@, "-t"@, req.session@, c])
            } else if has_window {
                None
            } else {
                Some(seq!["new-window"@, "-t"@, req.session@, "-n"@, req.window@, c])
            },
        }
    }
}

/// What an attach attaches to: the active window for a fresh shell, else the named
/// one.
pub open spec fn attach_target(req: AttachRequest) -> Seq<char> {
    if req.window@ == fresh_shell() {
        req.session@ + ":"@
    } else {
        target_of(req.session@, req.window@)
    }
}

/// The status bar of an attached session.
pub open spec fn status_left() -> Seq<char> {
    " #[fg=cyan,bold]#S#[default] #[fg=brightblack]│#[default] ctrl+b d to detach "@
}

/// `tmux set-option` for one session.
pub open spec fn set_option(session: Seq<char>, name: Seq<char>, value: Seq<char>) -> Seq<Seq<char>> {
    seq!["set-option"@, "-t"@, session, name, value]
}

/// The tmux commands of an attach, in order: create what is missing, make detaching
/// harmless, show the status bar, attach.
pub open spec fn attach_commands(
    req: AttachRequest,
    has_session: bool,
    has_window: bool,
) -> Seq<Seq<Seq<char>>> {
    let head = match creation_of(req, has_session, has_window) {
        Some(argv) => seq![argv],
        None => seq![],
    };
    head + seq![
        set_option(req.session@, "destroy-unattached"@, "off"@),
        set_option(req.session@, "remain-on-exit"@, "off"@),
        seq!["bind-key"@, "d"@, "detach-client"@],
        set_option(req.session@, "status-left"@, status_left()),
        set_option(req.session@, "status-left-length"@, "60"@),
        seq!["attach"@, "-t"@, attach_target(req)],
    ]
}

fn owned2(a: &str, b: &str) -> (res: Vec<String>)
    ensures
        res.deep_view() == seq![a@, b@],
{
    let mut v: Vec<String> = Vec::new();
    v.push(a.to_owned());
    v.push(b.to_owned());
    assert(v.deep_view() =~= seq![a@, b@]);
    v
}

fn push_arg(v: &mut Vec<String>, a: &str)
    ensures
        final(v).deep_view() == old(v).deep_view().push(a@),
{
    let ghost before = v.deep_view();
    v.push(a.to_owned());
    assert(v.deep_view() =~= before.push(a@));
}

fn option_argv(session: &str, name: &str, value: &str) -> (res: Vec<String>)
    ensures
        res.deep_view() == set_option(session@, name@, value@),
{
    let mut v = owned2("set-option", "-t");
    push_arg(&mut v, session);
    push_arg(&mut v, name);
    push_arg(&mut v, value);
    assert(v.deep_view() =~= set_option(session@, name@, value@));
    v
}

fn creation_argv(req: &AttachRequest, has_session: bool, has_window: bool) -> (res: Option<
    Vec<String>,
>)
    ensures
        res.deep_view() == creation_of(*req, has_session, has_window),
{
    let fresh = *req.window.as_str() == *"scaffl-new";
    if !has_session {
        let mut v = owned2("new-session", "-d");
        push_arg(&mut v, "-s");
        push_arg(&mut v, req.session.as_str());
        assert(v.deep_view() =~= seq!["new-session"@, "-d"@, "-s"@, req.session@]);
        if !fresh {
            push_arg(&mut v, "-n");
            push_arg(&mut v, req.window.as_str());
        }
        if let Some(c) = &req.create_with {
            push_arg(&mut v, c.as_str());
        }
        return Some(v);
    }
    match &req.create_with {
        None => None,
        Some(c) => {
            if !fresh && has_window {
                return None;
            }
            let mut v = owned2("new-window", "-t");
            push_arg(&mut v, req.session.as_str());
            if !fresh {
                push_arg(&mut v, "-n");
                push_arg(&mut v, req.window.as_str());
            }
            push_arg(&mut v, c.as_str());
            assert(Some(v.deep_view()) == creation_of(*req, has_session, has_window)) by {
                if fresh {
                    assert(v.deep_view() =~= seq!["new-window"@, "-t"@, req.session@, c@]);
                } else {
                    assert(v.deep_view() =~= seq![
                        "new-window"@,
                        "-t"@,
                        req.session@,
                        "-n"@,
                        req.window@,
                        c@,
                    ]);
                }
            }
            Some(v)
        },
    }
}

/// The tmux commands of an attach, in order. `has_window` counts only where
/// [`window_probe`] asked for it.
pub fn attach_plan(req: &AttachRequest, has_session: bool, has_window: bool) -> (res: Vec<
    Vec<String>,
>)
    ensures
        res.deep_view() == attach_commands(*req, has_session, has_window),
{
    let session = req.session.as_str();
    let mut out: Vec<Vec<String>> = Vec::new();
    let ghost head: Seq<Seq<Seq<char>>> = match creation_of(*req, has_session, has_window) {
        Some(argv) => seq![argv],
        None => seq![],
    };
    if let Some(argv) = creation_argv(req, has_session, has_window) {
        out.push(argv);
    }
    assert(out.deep_view() =~= head);
    out.push(option_argv(session, "destroy-unattached", "off"));
    out.push(option_argv(session, "remain-on-exit", "off"));
    let mut bind = owned2("bind-key", "d");
    push_arg(&mut bind, "detach-client");
    assert(bind.deep_view() =~= seq!["bind-key"@, "d"@, "detach-client"@]);
    out.push(bind);
    out.push(
        option_argv(
            session,
            "status-left",
            " #[fg=cyan,bold]#S#[default] #[fg=brightblack]│#[default] ctrl+b d to detach ",
        ),
    );
    out.push(option_argv(session, "status-left-length", "60"));
    let target = if *req.window.as_str() == *"scaffl-new" {
        concat(session, ":")
    } else {
        concat3(session, ":", req.window.as_str())
    };
    let mut attach = owned2("attach", "-t");
    push_arg(&mut attach, target.as_str());
    assert(attach.deep_view() =~= seq!["attach"@, "-t"@, attach_target(*req)]);
    out.push(attach);
    assert(out.deep_view() =~= attach_commands(*req, has_session, has_window));
    out
}

/// An attach ends by attaching, and creates at most one thing before.
pub proof fn law_attach_ends_with_attaching(req: AttachRequest, has_session: bool, has_window: bool)
    ensures
        ({
            let commands = attach_commands(req, has_session, has_window);
            &&& commands.last() == seq!["attach"@, "-t"@, attach_target(req)]
            &&& 6 <= commands.len() <= 7
            &&& has_session && has_window && req.window@ != fresh_shell() ==> commands.len() == 6
        }),
{
}

/// The arguments of tmux that close a window.
pub fn kill_argv(kill: &KillRequest) -> (res: Vec<String>)
    ensures
        res.deep_view() == seq![
            "kill-window"@,
            "-t"@,
            target_of(kill.session@, text::digits(kill.index as nat)),
        ],
{
    let index = text::decimal(kill.index as u64);
    let target = concat3(kill.session.as_str(), ":", index.as_str());
    let mut v = owned2("kill-window", "-t");
    push_arg(&mut v, target.as_str());
    assert(v.deep_view() =~= seq!["kill-window"@, "-t"@, target@]);
    v
}

// ---------------------------------------------------------------------------
// Window lists
// ---------------------------------------------------------------------------
/// The outcome of asking tmux for the windows of a session.
#[derive(Debug, PartialEq, Eq)]
pub enum WindowList {
    Windows(Vec<TmuxWindow>),
    /// There is no such session, with tmux's message.
    NoSession(String),
    /// tmux could not be run.
    SpawnFailed(String),
}

/// What tmux says when it fails: its message, or else its exit code.
pub open spec fn tmux_failure(stderr: Seq<char>, code: int) -> Seq<char> {
    if text::trimmed(stderr).len() > 0 {
        text::trimmed(stderr)
    } else {
        "tmux exited "@ + text::signed_digits(code)
    }
}

/// What tmux says when it fails; `code` is -1 for one that was killed.
pub fn tmux_failure_text(stderr: &str, code: i32) -> (res: String)
    ensures
        res@ == tmux_failure(stderr@, code as int),
{
    let message = text::trim(stderr);
    if message.as_str().is_empty() {
        let n = text::signed_decimal(code as i64);
        concat("tmux exited ", n.as_str())
    } else {
        message
    }
}

/// The complaint about a window list, if there is one: a session that was expected
/// and is gone, or a tmux that could not be run.
pub open spec fn list_complaint(
    session: Seq<char>,
    list: WindowList,
    expecting: bool,
) -> Option<Seq<char>> {
    match list {
        WindowList::Windows(_) => None,
        WindowList::NoSession(msg) => if expecting {
            Some(
                "tmux session `"@ + session
                    + "` vanished after detach — check ~/.tmux.conf hooks: "@ + msg@,
            )
        } else {
            None
        },
        WindowList::SpawnFailed(msg) => Some("tmux query failed: "@ + msg@),
    }
}

/// Takes in a window list and returns a line for the log when there is something
/// to complain about, which the banner shows too.
pub fn windows_listed(a: &mut App, list: WindowList, expecting: bool) -> (res: Option<String>)
    requires
        match list {
            WindowList::Windows(w) => old(a).services.keys().len() + old(
                a).terminals.terminals@.len() + w@.len() + 1 <= usize::MAX,
            _ => true,
        },
        terminals::rows_of(*old(a)).len() <= usize::MAX,
    ensures
        ({
            let complaint = list_complaint(old(a).terminals.session_name@, list, expecting);
            &&& *final(a) == (App {
                terminals: final(a).terminals,
                flash: final(a).flash,
                ..*old(a)
            })
            &&& final(a).terminals == (TerminalsState {
                windows: final(a).terminals.windows,
                selected: terminals::clamped(
                    old(a).terminals.selected,
                    terminals::rows_of(*final(a)).len(),
                ),
                ..old(a).terminals
            })
            &&& match list {
                WindowList::Windows(w) => final(a).terminals.windows == w,
                _ => final(a).terminals.windows@.len() == 0,
            }
            &&& match complaint {
                Some(line) => final(a).flash.deep_view() == Some(line) && res.deep_view() == Some(
                    "[tmux] "@ + line,
                ),
                None => final(a).flash == old(a).flash && res is None,
            }
        }),
{
    match list {
        WindowList::Windows(w) => {
            a.terminals_set_windows(w);
            None
        },
        WindowList::NoSession(msg) => {
            a.terminals_set_windows(Vec::new());
            if expecting {
                let mut line = concat3(
                    "tmux session `",
                    a.terminals.session_name.as_str(),
                    "` vanished after detach — check ~/.tmux.conf hooks: ",
                );
                line.append(msg.as_str());
                let log = concat("[tmux] ", line.as_str());
                a.flash = Some(line);
                Some(log)
            } else {
                None
            }
        },
        WindowList::SpawnFailed(msg) => {
            a.terminals_set_windows(Vec::new());
            let line = concat("tmux query failed: ", msg.as_str());
            let log = concat("[tmux] ", line.as_str());
            a.flash = Some(line);
            Some(log)
        },
    }
}

/// What comes first: the end of the session, then another worktree, then an attach, then
/// the closing of a window, then lazygit. What is not taken stays.
pub proof fn law_requests_are_served_in_order(a: App, post: App, step: DriveStep)
    requires
        due_step(a, post, step),
    ensures
        ({
            let switch = !a.quit && a.pending_switch is Some;
            let attach = !a.quit && a.pending_switch is None && a.pending_attach is Some;
            let kill = !a.quit && a.pending_switch is None && a.pending_attach is None
                && a.pending_kill is Some;
            let lazygit = !a.quit && a.pending_switch is None && a.pending_attach is None
                && a.pending_kill is None && a.pending_lazygit;
            &&& a.quit ==> step == DriveStep::Finish(DriveOutcome::Quit)
            &&& switch ==> step == DriveStep::Finish(
                DriveOutcome::SwitchWorktree { path: a.pending_switch->0, view: a.view },
            )
            &&& attach ==> step == DriveStep::Attach(a.pending_attach->0)
            &&& kill ==> step == DriveStep::Kill(a.pending_kill->0)
            &&& lazygit ==> step == DriveStep::Lazygit
            &&& !a.quit && !switch && !attach && !kill && !lazygit ==> step == DriveStep::Wait
            &&& post.pending_switch == if switch {
                None
            } else {
                a.pending_switch
            }
            &&& post.pending_attach == if attach {
                None
            } else {
                a.pending_attach
            }
            &&& post.pending_kill == if kill {
                None
            } else {
                a.pending_kill
            }
            &&& post.pending_lazygit <==> a.pending_lazygit && !lazygit
            &&& post.quit == a.quit && post.view == a.view
        }),
{
}

/// The title of the terminal window names the project, or the program where that has no
/// name.
pub proof fn law_the_title_names_the_project(config: Config)
    ensures
        config.project.name is Some ==> title_of(config) == "scaffl — "@ + config.project.name->0@,
        config.project.name is None ==> title_of(config) == "scaffl — "@ + "scaffl"@,
{
}

/// A window is looked for only in a session that is there, under its name, and where it
/// could be created; a fresh shell is never looked for.
pub proof fn law_windows_are_looked_for_before_they_are_created(
    req: AttachRequest,
    has_session: bool,
)
    ensures
        probe_of(req, has_session) is Some <==> has_session && req.window@ != "scaffl-new"@
            && req.create_with is Some,
        probe_of(req, has_session) is Some ==> probe_of(req, has_session)->0 == req.session@ + ":"@
            + req.window@,
{
}

/// What an attach creates: the session where there is none, with its window; a window
/// in a session that is there, unless the window is there too; nothing without a
/// command. A fresh shell is created each time, without a name.
pub proof fn law_what_an_attach_creates(req: AttachRequest, has_session: bool, has_window: bool)
    ensures
        ({
            let made = creation_of(req, has_session, has_window);
            let fresh = req.window@ == "scaffl-new"@;
            let command = if req.create_with is Some {
                seq![req.create_with->0@]
            } else {
                seq![]
            };
            let name = if fresh {
                seq![]
            } else {
                seq!["-n"@, req.window@]
            };
            &&& !has_session ==> made == Some(
                seq!["new-session"@, "-d"@, "-s"@, req.session@] + name + command,
            )
            &&& has_session && req.create_with is Some && (fresh || !has_window) ==> made == Some(
                seq!["new-window"@, "-t"@, req.session@] + name + command,
            )
            &&& has_session && (req.create_with is None || (has_window && !fresh)) ==> made is None
        }),
{
    let made = creation_of(req, has_session, has_window);
    let fresh = req.window@ == "scaffl-new"@;
    let command = if req.create_with is Some {
        seq![req.create_with->0@]
    } else {
        seq![]
    };
    let name = if fresh {
        seq![]
    } else {
        seq!["-n"@, req.window@]
    };
    if !has_session {
        assert(made->0 =~= seq!["new-session"@, "-d"@, "-s"@, req.session@] + name + command);
    } else if req.create_with is Some && (fresh || !has_window) {
        assert(made->0 =~= seq!["new-window"@, "-t"@, req.session@] + name + command);
    }
}

/// An attach creates what is missing, then sets up the session in five steps, then
/// attaches to the window, or to the active one for a fresh shell.
pub proof fn law_an_attach_sets_the_session_up(
    req: AttachRequest,
    has_session: bool,
    has_window: bool,
)
    ensures
        ({
            let commands = attach_commands(req, has_session, has_window);
            let made = creation_of(req, has_session, has_window);
            let n = if made is Some {
                1int
            } else {
                0
            };
            let session = req.session@;
            &&& commands.len() == n + 6
            &&& made is Some ==> commands[0] == made->0
            &&& commands[n] == seq!["set-option"@, "-t"@, session, "destroy-unattached"@, "off"@]
            &&& commands[n + 1] == seq!["set-option"@, "-t"@, session, "remain-on-exit"@, "off"@]
            &&& commands[n + 2] == seq!["bind-key"@, "d"@, "detach-client"@]
            &&& commands[n + 3] == seq![
                "set-option"@,
                "-t"@,
                session,
                "status-left"@,
                " #[fg=cyan,bold]#S#[default] #[fg=brightblack]│#[default] ctrl+b d to detach "@,
            ]
            &&& commands[n + 4] == seq!["set-option"@, "-t"@, session, "status-left-length"@, "60"@]
            &&& req.window@ != "scaffl-new"@ ==> commands[n + 5] == seq![
                "attach"@,
                "-t"@,
                session + ":"@ + req.window@,
            ]
            &&& req.window@ == "scaffl-new"@ ==> commands[n + 5] == seq![
                "attach"@,
                "-t"@,
                session + ":"@,
            ]
        }),
{
}

/// A failure is told in tmux's words, and with its exit code where it has none.
pub proof fn law_tmux_failures_are_told(stderr: Seq<char>, code: int)
    ensures
        ({
            let blank = forall|i: int|
                0 <= i < stderr.len() ==> text::is_space(#[trigger] stderr[i]);
            &&& !blank ==> tmux_failure(stderr, code) == text::trimmed(stderr)
            &&& blank ==> tmux_failure(stderr, code) == "tmux exited "@ + text::signed_digits(code)
        }),
{
    text::law_trimming_takes_white_space_off(stderr);
    let (a, b) = text::trim_bounds(stderr);
    if a < b {
        assert(!text::is_space(stderr[a]));
    }
}

/// A list of windows is no reason to complain, and neither is a missing session that
/// nobody counted on; one that was there before is, and so is a tmux that does not run.
pub proof fn law_missing_sessions_are_told_when_expected(
    session: Seq<char>,
    list: WindowList,
    expecting: bool,
)
    ensures
        ({
            let complaint = list_complaint(session, list, expecting);
            &&& list is Windows ==> complaint is None
            &&& list matches WindowList::NoSession(msg) ==> complaint == if expecting {
                Some(
                    "tmux session `"@ + session
                        + "` vanished after detach — check ~/.tmux.conf hooks: "@ + msg@,
                )
            } else {
                None
            }
            &&& list matches WindowList::SpawnFailed(msg) ==> complaint == Some(
                "tmux query failed: "@ + msg@,
            )
        }),
{
}

} // verus!
