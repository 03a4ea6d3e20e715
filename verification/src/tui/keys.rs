//! The key map: what each key does in each mode and view.
//!
//! A handler changes the state at once and returns what the event loop has to do
//! besides.
use crate::text;
use crate::tui::app;
use crate::tui::app::{App, ItemKind, Launch, LaunchRejection, Mode, Relaunch, ServiceAction};
use crate::tui::diff;
use crate::tui::diff::{DiffFocus, DiffState};
use crate::tui::palette;
use crate::tui::runner;
use crate::tui::terminals;
use crate::tui::view;
use crate::tui::worktrees;
use crate::tui::worktrees::NewWorktreeForm;
use vstd::prelude::*;

verus! {

/// A key, as far as the key map tells keys apart.
#[derive(Debug, Clone, Copy, PartialEq, Eq, Structural)]
pub enum Key {
    Char(char),
    Enter,
    Esc,
    Tab,
    BackTab,
    Backspace,
    Up,
    Down,
    Left,
    Right,
    Home,
    End,
    PageUp,
    PageDown,
    Other,
}

/// How the body of the diff view moves.
#[derive(Debug, Clone, Copy, PartialEq, Eq, Structural)]
pub enum Scroll {
    LineDown,
    LineUp,
    HalfPageDown,
    HalfPageUp,
    Top,
    Bottom,
    NextHunk,
    PreviousHunk,
    /// One `g` of the two that lead to the top.
    TopChord,
}

/// What the event loop does after a key.
#[derive(Debug, PartialEq, Eq)]
pub enum Effect {
    Nothing,
    /// Probe tmux unless that is done, then list the session's windows.
    RefreshWindows,
    /// Load the changed files unless they are, then the selected file's diff.
    LoadDiff,
    /// Load the selected file's diff unless it is cached.
    LoadSelectedDiff,
    /// List the project's worktrees and open the switcher.
    ListWorktrees,
    /// Run a lifecycle action; an empty list means all services.
    ServiceAction { action: ServiceAction, services: Vec<String> },
    /// Probe tmux unless that is done, then attach to the service.
    AttachService(String),
    Launch(Launch),
    /// Abort the run of the selected row.
    AbortRun,
    /// Abort the lifecycle run.
    AbortLifecycle,
    /// Start the selected row over: abort its run if one was in flight, then launch.
    Restart { aborted: bool, launch: Option<Launch> },
    /// Create the worktree that the form describes.
    CreateWorktree(NewWorktreeForm),
    Scroll(Scroll),
}

/// The banner for a refused launch.
pub open spec fn refusal_message(r: app::Refusal) -> Seq<char> {
    match r {
        app::Refusal::NoExecutor => "no backend wired into the TUI"@,
        app::Refusal::AlreadyRunning => "another run is in progress"@,
        app::Refusal::NotRunnable(msg) => msg,
    }
}

/// The banner for a refused launch.
pub fn launch_message(rejection: LaunchRejection) -> (res: String)
    ensures
        res@ == refusal_message(rejection@),
{
    match rejection {
        LaunchRejection::NoExecutor => "no backend wired into the TUI".to_owned(),
        LaunchRejection::AlreadyRunning => "another run is in progress".to_owned(),
        LaunchRejection::NotRunnable(msg) => msg,
    }
}

/// Everything that is selected exists.
pub open spec fn ready(a: App) -> bool {
    &&& a.selection_valid()
    &&& a.palette_valid()
    &&& worktrees::switcher_valid(a)
    &&& a.terminals.selected < terminals::rows_of(a).len()
    &&& a.diff.selection_valid()
}

/// `post` is `pre` with `msg` in the banner.
pub open spec fn flashed(pre: App, post: App, msg: Seq<char>) -> bool {
    post == (App { flash: post.flash, ..pre }) && post.flash.deep_view() == Some(msg)
}

/// `pre` with the session ended.
pub open spec fn quitted(pre: App) -> App {
    App { quit: true, ..pre }
}

/// What asking for a lifecycle action does: the request goes out, or the banner
/// says why not.
pub open spec fn action_asked(
    pre: App,
    action: ServiceAction,
    services: Seq<Seq<char>>,
    post: App,
    effect: Effect,
) -> bool {
    match pre.action_refusal() {
        None => post == pre && (effect matches Effect::ServiceAction { action: a, services: s } && a
            == action && s.deep_view() == services),
        Some(r) => flashed(pre, post, refusal_message(r)) && effect is Nothing,
    }
}

/// The service of the selected row.
pub open spec fn service_selected(pre: App) -> Option<Seq<char>> {
    match pre.selection() {
        Some(item) => if item.kind == ItemKind::Service && pre.services@.contains_key(item.name@) {
            Some(pre.services@[item.name@].name@)
        } else {
            None
        },
        None => None,
    }
}

/// What asking for a lifecycle action on the selected service does.
pub open spec fn action_on_selected(
    pre: App,
    action: ServiceAction,
    post: App,
    effect: Effect,
) -> bool {
    match service_selected(pre) {
        Some(name) => action_asked(pre, action, seq![name], post, effect),
        None => post == pre && effect is Nothing,
    }
}

/// What a launch attempt of the selected row does: it starts, asks whether to
/// start over, or says why not.
pub open spec fn launch_tried(pre: App, args: Seq<Seq<char>>, post: App, effect: Effect) -> bool {
    match pre.launch_refusal() {
        None => pre.launched(post) && (effect matches Effect::Launch(l) && pre.launch_matches(
            l,
            args,
        )),
        Some(r) => effect is Nothing && if r is AlreadyRunning {
            pre.asked_to_restart(post)
        } else {
            flashed(pre, post, refusal_message(r))
        },
    }
}

/// What Enter does in the control center.
pub open spec fn enter_pressed(pre: App, post: App, effect: Effect) -> bool {
    match service_selected(pre) {
        Some(name) => post == pre && (effect matches Effect::AttachService(s) && s@ == name),
        None => if pre.accepts_args() && !pre.selection_running() {
            pre.asked_for_args(post) && effect is Nothing
        } else {
            launch_tried(pre, seq![], post, effect)
        },
    }
}

/// What `s` does in the control center: it aborts the selected run, else the
/// lifecycle run, else it stops the selected service.
pub open spec fn stop_pressed(pre: App, post: App, effect: Effect) -> bool {
    if pre.selection_running() {
        flashed(pre, post, "aborted run"@) && effect is AbortRun
    } else if pre.lifecycle_running() {
        flashed(pre, post, "aborted lifecycle run"@) && effect is AbortLifecycle
    } else {
        action_on_selected(pre, ServiceAction::Stop, post, effect)
    }
}

/// What `S` does in the control center.
pub open spec fn stop_all_pressed(pre: App, post: App, effect: Effect) -> bool {
    if pre.lifecycle_running() {
        flashed(pre, post, "aborted lifecycle run"@) && effect is AbortLifecycle
    } else {
        action_asked(pre, ServiceAction::Stop, seq![], post, effect)
    }
}

/// `pre` with row `selected` of the sidebar selected.
pub open spec fn moved(pre: App, selected: int) -> App {
    App { selected: selected as usize, ..pre }
}

/// What a key does in the control center.
pub open spec fn control_center_key(pre: App, key: Key, post: App, effect: Effect) -> bool {
    match key {
        Key::Char(c) => if c == 'q' {
            post == quitted(pre) && effect is Nothing
        } else if c == 'j' {
            post == next_row(pre) && effect is Nothing
        } else if c == 'k' {
            post == previous_row(pre) && effect is Nothing
        } else if c == ':' || c == '/' {
            pre.palette_opened(post) && effect is Nothing
        } else if c == 's' {
            stop_pressed(pre, post, effect)
        } else if c == 'S' {
            stop_all_pressed(pre, post, effect)
        } else if c == 'r' {
            action_on_selected(pre, ServiceAction::Restart, post, effect)
        } else if c == 'R' {
            action_asked(pre, ServiceAction::Restart, seq![], post, effect)
        } else if c == 'u' {
            action_on_selected(pre, ServiceAction::Up, post, effect)
        } else if c == 'U' {
            action_asked(pre, ServiceAction::Up, seq![], post, effect)
        } else if c == 'D' {
            action_asked(pre, ServiceAction::Down, seq![], post, effect)
        } else {
            post == pre && effect is Nothing
        },
        Key::Down => post == next_row(pre) && effect is Nothing,
        Key::Up => post == previous_row(pre) && effect is Nothing,
        Key::Home => post == moved(pre, 0) && effect is Nothing,
        Key::End => post == last_row(pre) && effect is Nothing,
        Key::Enter => enter_pressed(pre, post, effect),
        _ => post == pre && effect is Nothing,
    }
}

/// The next row of the sidebar selected.
pub open spec fn next_row(pre: App) -> App {
    if pre.selected + 1 < pre.items@.len() {
        moved(pre, pre.selected + 1)
    } else {
        pre
    }
}

/// The previous row of the sidebar selected.
pub open spec fn previous_row(pre: App) -> App {
    if pre.selected > 0 {
        moved(pre, pre.selected - 1)
    } else {
        pre
    }
}

/// The last row of the sidebar selected.
pub open spec fn last_row(pre: App) -> App {
    if pre.items@.len() > 0 {
        moved(pre, pre.items@.len() - 1)
    } else {
        pre
    }
}

/// What a key does in the terminals view.
pub open spec fn terminals_key(pre: App, key: Key, post: App, effect: Effect) -> bool {
    let selected = pre.terminals.selected;
    let total = terminals::rows_of(pre).len();
    let down = terminals::terminals_moved(
        pre,
        if selected + 1 < total {
            (selected + 1) as usize
        } else {
            selected
        },
    );
    let up = terminals::terminals_moved(
        pre,
        if selected > 0 {
            (selected - 1) as usize
        } else {
            0
        },
    );
    effect is Nothing && match key {
        Key::Char(c) => if c == 'q' {
            post == quitted(pre)
        } else if c == 'j' {
            post == down
        } else if c == 'k' {
            post == up
        } else if c == 'd' {
            row_killed(pre, post)
        } else if c == 'n' {
            new_shell_queued(pre, post)
        } else {
            post == pre
        },
        Key::Down => post == down,
        Key::Up => post == up,
        Key::Enter => row_confirmed(pre, post),
        _ => post == pre,
    }
}

/// `post` is `pre` with a fresh shell window to attach to.
pub open spec fn new_shell_queued(pre: App, post: App) -> bool {
    &&& post == (App { pending_attach: post.pending_attach, ..pre })
    &&& terminals::attaches(
        post.pending_attach,
        pre.terminals.session_name@,
        "scaffl-new"@,
        Some(terminals::root_shell(pre.project_root@)),
    )
}

/// What closing the selected row of the terminals view does.
pub open spec fn row_killed(pre: App, post: App) -> bool {
    let row = terminals::rows_of(pre)[pre.terminals.selected as int];
    if row is Terminal {
        pre.terminal_deleted(post, row->Terminal_0.name@)
    } else {
        exists|index: Option<u32>| #[trigger]
            terminals::row_window(row, pre.terminals.windows@, index) && match index {
                Some(i) => post == (App { pending_kill: post.pending_kill, ..pre }) && (
                post.pending_kill matches Some(k) && k.index == i && k.session@
                    == pre.terminals.session_name@),
                None => post == pre,
            }
    }
}

/// What confirming the selected row of the terminals view does.
pub open spec fn row_confirmed(pre: App, post: App) -> bool {
    match terminals::rows_of(pre)[pre.terminals.selected as int] {
        terminals::RowModel::Service(name) => match terminals::attach_refusal(*pre.config, name) {
            Some(reason) => flashed(pre, post, reason),
            None => terminals::service_attach_queued(pre, post, name),
        },
        terminals::RowModel::Terminal(t) => post == (App {
            pending_attach: post.pending_attach,
            ..pre
        }) && terminals::attaches(
            post.pending_attach,
            pre.terminals.session_name@,
            t.name@,
            terminals::create_command(t.kind, pre.project_root@),
        ),
        terminals::RowModel::Window(w) => post == (App {
            pending_attach: post.pending_attach,
            ..pre
        }) && terminals::attaches(
            post.pending_attach,
            pre.terminals.session_name@,
            text::digits(w.index as nat),
            None,
        ),
        terminals::RowModel::NewSentinel => terminals::terminal_form_is(
            pre,
            post,
            terminals::TerminalFormModel::blank(),
        ),
    }
}

/// `pre` with that pane of the diff view focused.
pub open spec fn focused(pre: App, focus: DiffFocus) -> App {
    diff::with_diff(pre, DiffState { focus, ..pre.diff })
}

/// What a key does in the diff view.
pub open spec fn diff_key(pre: App, key: Key, post: App, effect: Effect) -> bool {
    match key {
        Key::Char(c) => if c == 'q' {
            post == quitted(pre) && effect is Nothing
        } else if c == 'r' {
            diff::diff_stale(pre, post) && effect is LoadDiff
        } else if c == 'w' {
            post == diff::with_diff(pre, DiffState { wrap: !pre.diff.wrap, ..pre.diff }) && effect
                is Nothing
        } else if c == 'L' {
            effect is Nothing && if pre.diff.lazygit_available {
                post == (App { pending_lazygit: true, ..pre })
            } else {
                flashed(pre, post, "install lazygit to enable the L keybind"@)
            }
        } else if c == ']' {
            post == focused(pre, DiffFocus::Body) && effect == Effect::Scroll(Scroll::NextHunk)
        } else if c == '[' {
            post == focused(pre, DiffFocus::Body) && effect == Effect::Scroll(Scroll::PreviousHunk)
        } else {
            diff_pane_key(pre, key, post, effect)
        },
        Key::Tab | Key::BackTab => post == focused(
            pre,
            match pre.diff.focus {
                DiffFocus::Files => DiffFocus::Body,
                DiffFocus::Body => DiffFocus::Files,
            },
        ) && effect is Nothing,
        _ => diff_pane_key(pre, key, post, effect),
    }
}

/// `pre` with another file of the diff view selected.
pub open spec fn file_moved(pre: App, selected: int) -> App {
    diff::with_diff(pre, DiffState { selected: selected as usize, ..pre.diff })
}

/// What a key does in the focused pane of the diff view.
pub open spec fn diff_pane_key(pre: App, key: Key, post: App, effect: Effect) -> bool {
    let is_down = key is Down || key == Key::Char('j');
    let is_up = key is Up || key == Key::Char('k');
    match pre.diff.focus {
        DiffFocus::Files => if is_down {
            effect is LoadSelectedDiff && post == if pre.diff.selected + 1
                < pre.diff.files@.len() {
                file_moved(pre, pre.diff.selected + 1)
            } else {
                pre
            }
        } else if is_up {
            effect is LoadSelectedDiff && post == if pre.diff.selected > 0 {
                file_moved(pre, pre.diff.selected - 1)
            } else {
                pre
            }
        } else if key is Enter || key is Right || key == Key::Char('l') {
            post == focused(pre, DiffFocus::Body) && effect is Nothing
        } else {
            post == pre && effect is Nothing
        },
        DiffFocus::Body => if key is Left || key is Esc || key == Key::Char('h') {
            post == focused(pre, DiffFocus::Files) && effect is Nothing
        } else {
            post == pre && match body_scroll(key) {
                Some(s) => effect == Effect::Scroll(s),
                None => effect is Nothing,
            }
        },
    }
}

/// How a key moves the body of the diff view.
pub open spec fn body_scroll(key: Key) -> Option<Scroll> {
    match key {
        Key::Down => Some(Scroll::LineDown),
        Key::Up => Some(Scroll::LineUp),
        Key::PageDown => Some(Scroll::HalfPageDown),
        Key::PageUp => Some(Scroll::HalfPageUp),
        Key::Home => Some(Scroll::Top),
        Key::End => Some(Scroll::Bottom),
        Key::Char(c) => if c == 'j' {
            Some(Scroll::LineDown)
        } else if c == 'k' {
            Some(Scroll::LineUp)
        } else if c == 'G' {
            Some(Scroll::Bottom)
        } else if c == 'g' {
            Some(Scroll::TopChord)
        } else {
            None
        },
        _ => None,
    }
}

/// `pre` with `v` shown.
pub open spec fn shown(pre: App, v: view::View) -> App {
    App { view: v, ..pre }
}

/// What a key does without a modal: control keys first, then the keys of all
/// views, then those of the shown view.
pub open spec fn normal_key(pre: App, key: Key, control: bool, post: App, effect: Effect) -> bool {
    if control {
        effect is Nothing && if key == Key::Char('c') {
            post == quitted(pre)
        } else if key == Key::Char('k') || key == Key::Char('p') {
            pre.palette_opened(post)
        } else {
            post == pre
        }
    } else if key == Key::Char('T') {
        post == shown(pre, view::View::Terminals) && effect is RefreshWindows
    } else if key == Key::Char('G') {
        post == shown(pre, view::View::Diff) && effect is LoadDiff
    } else if key == Key::Char('C') && pre.view != view::View::ControlCenter {
        post == shown(pre, view::View::ControlCenter) && effect is Nothing
    } else if key == Key::Char('W') {
        post == pre && effect is ListWorktrees
    } else {
        match pre.view {
            view::View::Terminals => terminals_key(pre, key, post, effect),
            view::View::Diff => diff_key(pre, key, post, effect),
            view::View::ControlCenter => control_center_key(pre, key, post, effect),
        }
    }
}

/// `post` is `pre` with another state of its open palette, that is consistent.
pub open spec fn palette_is(pre: App, post: App) -> bool {
    &&& post == (App { palette: post.palette, ..pre })
    &&& post.palette matches Some(p) && p.wf() && p.candidates == pre.palette->0.candidates
}

/// What confirming the palette does.
pub open spec fn palette_confirmed(pre: App, post: App, effect: Effect) -> bool {
    match pre.palette {
        None => post == pre && effect is Nothing,
        Some(p) => if p.selected >= p.matches@.len() {
            post == pre && effect is Nothing
        } else {
            let idx = p.matches@[p.selected as int].item_index;
            let mid = pre.palette_picked(idx);
            match App::palette_refusal(pre.items@[idx as int]) {
                Some(r) => flashed(mid, post, refusal_message(r)) && effect is Nothing,
                None => launch_tried(mid, palette::args_of(p.input@), post, effect),
            }
        },
    }
}

/// What a key does in the palette.
pub open spec fn palette_key(pre: App, key: Key, control: bool, post: App, effect: Effect) -> bool {
    if control && key == Key::Char('c') {
        post == quitted(pre) && effect is Nothing
    } else if key is Esc {
        post == (App { mode: Mode::Normal, palette: None, ..pre }) && effect is Nothing
    } else if key is Enter {
        palette_confirmed(pre, post, effect)
    } else if pre.palette is None {
        post == pre && effect is Nothing
    } else {
        let p = pre.palette->0;
        effect is Nothing && match key {
            Key::Up | Key::BackTab => palette_is(pre, post) && post.palette->0.input == p.input
                && (p.matches@.len() > 0 ==> post.palette->0.selected == if p.selected == 0 {
                p.matches@.len() - 1
            } else {
                p.selected - 1
            }),
            Key::Down | Key::Tab => palette_is(pre, post) && post.palette->0.input == p.input && (
            p.matches@.len() > 0 ==> post.palette->0.selected == (p.selected + 1) % (
            p.matches@.len() as int)),
            Key::Backspace => palette_is(pre, post) && post.palette->0.input@ == text::without_last(
                p.input@,
            ) && post.palette->0.selected == 0,
            Key::Char(c) => if control {
                post == pre
            } else {
                palette_is(pre, post) && post.palette->0.input@ == p.input@.push(c)
                    && post.palette->0.selected == 0
            },
            _ => post == pre,
        }
    }
}

/// What resolving the arguments prompt does.
pub open spec fn prompt_resolved(pre: App, accept: bool, post: App, effect: Effect) -> bool {
    match pre.args_prompt {
        None => post == pre && effect is Nothing,
        Some(p) => {
            let closed = App { args_prompt: None, mode: Mode::Normal, ..pre };
            if !accept {
                post == closed && effect is Nothing
            } else {
                exists|mid: App| #[trigger]
                    closed.reselected(p.kind, p.item_name@, mid) && launch_tried(
                        mid,
                        App::prompt_args(p.input@),
                        post,
                        effect,
                    )
            }
        },
    }
}

/// What a key does in the arguments prompt.
pub open spec fn args_prompt_key(
    pre: App,
    key: Key,
    control: bool,
    post: App,
    effect: Effect,
) -> bool {
    if control && key == Key::Char('c') {
        post == quitted(pre) && effect is Nothing
    } else {
        match key {
            Key::Esc => prompt_resolved(pre, false, post, effect),
            Key::Enter => prompt_resolved(pre, true, post, effect),
            Key::Backspace => effect is Nothing && pre.args_typed(
                post,
                text::without_last(pre.args_prompt->0.input@),
            ),
            Key::Char(c) => effect is Nothing && pre.args_typed(
                post,
                pre.args_prompt->0.input@.push(c),
            ),
            _ => post == pre && effect is Nothing,
        }
    }
}

/// What answering the open question does.
pub open spec fn question_answered(pre: App, accept: bool, post: App, effect: Effect) -> bool {
    match pre.confirm {
        None => post == pre && effect is Nothing,
        Some(d) => {
            let closed = App { confirm: None, mode: Mode::Normal, ..pre };
            if !accept {
                post == closed && effect is Nothing
            } else {
                exists|mid: App, res: Relaunch, done: App|
                    {
                        &&& #[trigger] closed.reselected(d.action->kind, d.action->name@, mid)
                        &&& #[trigger] mid.relaunched(res, done)
                        &&& match res.outcome {
                            Ok(launch) => post == done && (effect matches Effect::Restart {
                                aborted,
                                launch: Some(l),
                            } && aborted == res.aborted && l == launch),
                            Err(r) => flashed(done, post, refusal_message(r@)) && effect
                                == (Effect::Restart { aborted: res.aborted, launch: None }),
                        }
                    }
            }
        },
    }
}

/// What a key does while a question is open.
pub open spec fn confirm_key(pre: App, key: Key, control: bool, post: App, effect: Effect) -> bool {
    if control && key == Key::Char('c') {
        post == quitted(pre) && effect is Nothing
    } else if key is Esc || key == Key::Char('n') || key == Key::Char('N') {
        question_answered(pre, false, post, effect)
    } else if key is Tab || key is Left || key is Right || key == Key::Char('h') || key
        == Key::Char('l') {
        post == pre.focus_toggled() && effect is Nothing
    } else if key == Key::Char('y') || key == Key::Char('Y') {
        question_answered(pre, true, post, effect)
    } else if key is Enter {
        question_answered(
            pre,
            match pre.confirm {
                Some(d) => d.yes_focused,
                None => true,
            },
            post,
            effect,
        )
    } else {
        post == pre && effect is Nothing
    }
}

/// What confirming the selected row of the switcher does.
pub open spec fn switcher_confirmed(pre: App, post: App) -> bool {
    match pre.switcher {
        None => post == pre,
        Some(s) => if s.selected == s.entries@.len() {
            worktrees::form_is(
                pre,
                post,
                worktrees::FormModel {
                    path_input: worktrees::new_worktree_prefix(pre.project_root@),
                    branch_input: Seq::empty(),
                    focus: worktrees::NewFormField::Branch,
                    error: None,
                },
            )
        } else if s.entries@[s.selected as int].is_current {
            post == worktrees::switcher_closed(pre)
        } else {
            &&& post == (App {
                pending_switch: post.pending_switch,
                ..worktrees::switcher_closed(pre)
            })
            &&& post.pending_switch.deep_view() == Some(s.entries@[s.selected as int].path@)
        },
    }
}

/// What a key does in the worktree switcher.
pub open spec fn switcher_key(pre: App, key: Key, control: bool, post: App, effect: Effect) -> bool {
    if control && key == Key::Char('c') {
        post == quitted(pre) && effect is Nothing
    } else {
        match worktrees::open_form(pre) {
            Some(f) => match key {
                Key::Esc => post == (App {
                    switcher: Some(
                        worktrees::WorktreeSwitcher { creating: None, ..pre.switcher->0 },
                    ),
                    ..pre
                }) && effect is Nothing,
                Key::Tab => worktrees::form_is(pre, post, f@.refocused()) && effect is Nothing,
                Key::Backspace => worktrees::form_is(pre, post, f@.erased()) && effect is Nothing,
                Key::Enter => post == pre && (effect matches Effect::CreateWorktree(g) && g@ == f@),
                Key::Char(c) => worktrees::form_is(pre, post, f@.typed(c)) && effect is Nothing,
                _ => post == pre && effect is Nothing,
            },
            None => effect is Nothing && if key is Esc {
                post == worktrees::switcher_closed(pre)
            } else if key is Up || key == Key::Char('k') {
                match pre.switcher {
                    Some(s) => post == worktrees::switcher_moved(
                        pre,
                        if s.selected > 0 {
                            (s.selected - 1) as usize
                        } else {
                            0
                        },
                    ),
                    None => post == pre,
                }
            } else if key is Down || key == Key::Char('j') {
                match pre.switcher {
                    Some(s) => post == worktrees::switcher_moved(
                        pre,
                        if s.selected < s.entries@.len() {
                            (s.selected + 1) as usize
                        } else {
                            s.selected
                        },
                    ),
                    None => post == pre,
                }
            } else if key is Enter {
                switcher_confirmed(pre, post)
            } else {
                post == pre
            },
        }
    }
}

/// What a key does: it clears the banner and goes where the mode routes it.
pub open spec fn key_handled(pre: App, key: Key, control: bool, post: App, effect: Effect) -> bool {
    let quiet = App { flash: None, ..pre };
    match pre.mode {
        Mode::Normal => normal_key(quiet, key, control, post, effect),
        Mode::Palette => palette_key(quiet, key, control, post, effect),
        Mode::Confirm => confirm_key(quiet, key, control, post, effect),
        Mode::ArgsPrompt => args_prompt_key(quiet, key, control, post, effect),
        Mode::WorktreeSwitcher => switcher_key(quiet, key, control, post, effect),
    }
}

/// Asks for a lifecycle action.
fn request_action(a: &mut App, action: ServiceAction, services: Vec<String>) -> (effect: Effect)
    ensures
        action_asked(*old(a), action, services.deep_view(), *final(a), effect),
{
    match a.check_service_action() {
        Ok(_) => Effect::ServiceAction { action, services },
        Err(rej) => {
            a.flash = Some(launch_message(rej));
            Effect::Nothing
        },
    }
}

/// Asks for a lifecycle action on all services.
fn request_action_on_all(a: &mut App, action: ServiceAction) -> (effect: Effect)
    ensures
        action_asked(*old(a), action, seq![], *final(a), effect),
{
    let services: Vec<String> = Vec::new();
    assert(services.deep_view() =~= Seq::<Seq<char>>::empty());
    request_action(a, action, services)
}

/// The service of the selected row.
fn selected_service_name(a: &App) -> (res: Option<String>)
    ensures
        res.deep_view() == service_selected(*a),
{
    match a.selected_service() {
        Some(pane) => Some(pane.name.clone()),
        None => None,
    }
}

/// Asks for a lifecycle action on the selected service.
fn request_action_on_selected(a: &mut App, action: ServiceAction) -> (effect: Effect)
    ensures
        action_on_selected(*old(a), action, *final(a), effect),
{
    match selected_service_name(a) {
        Some(name) => {
            let mut services: Vec<String> = Vec::new();
            services.push(name);
            assert(services.deep_view() =~= seq![name@]);
            request_action(a, action, services)
        },
        None => Effect::Nothing,
    }
}

/// Turns the outcome of a launch attempt into a question, a banner or a launch.
fn settle_launch(a: &mut App, outcome: Result<Launch, LaunchRejection>) -> (effect: Effect)
    ensures
        match outcome {
            Ok(launch) => *final(a) == *old(a) && effect == Effect::Launch(launch),
            Err(r) => effect is Nothing && if r@ is AlreadyRunning {
                if old(a).selection_running() {
                    old(a).asked_to_restart(*final(a))
                } else {
                    *final(a) == *old(a)
                }
            } else {
                flashed(*old(a), *final(a), refusal_message(r@))
            },
        },
{
    match outcome {
        Ok(launch) => Effect::Launch(launch),
        Err(LaunchRejection::AlreadyRunning) => {
            a.open_kill_restart_confirm();
            Effect::Nothing
        },
        Err(rej) => {
            a.flash = Some(launch_message(rej));
            Effect::Nothing
        },
    }
}

/// Launches the selected row without arguments.
fn launch_selected(a: &mut App) -> (effect: Effect)
    ensures
        launch_tried(*old(a), seq![], *final(a), effect),
{
    let outcome = a.try_launch_selected();
    settle_launch(a, outcome)
}

/// Handles a key in the control center.
fn handle_key_control_center(a: &mut App, key: Key) -> (effect: Effect)
    requires
        ready(*old(a)),
    ensures
        control_center_key(*old(a), key, *final(a), effect),
        ready(*final(a)),
{
    match key {
        Key::Char(c) => {
            if c == 'q' {
                a.quit();
                Effect::Nothing
            } else if c == 'j' {
                a.select_next();
                Effect::Nothing
            } else if c == 'k' {
                a.select_prev();
                Effect::Nothing
            } else if c == ':' || c == '/' {
                a.open_palette();
                Effect::Nothing
            } else if c == 's' {
                if a.abort_selected_run() {
                    a.flash = Some("aborted run".to_owned());
                    Effect::AbortRun
                } else if a.abort_lifecycle_run() {
                    a.flash = Some("aborted lifecycle run".to_owned());
                    Effect::AbortLifecycle
                } else {
                    request_action_on_selected(a, ServiceAction::Stop)
                }
            } else if c == 'S' {
                if a.abort_lifecycle_run() {
                    a.flash = Some("aborted lifecycle run".to_owned());
                    Effect::AbortLifecycle
                } else {
                    request_action_on_all(a, ServiceAction::Stop)
                }
            } else if c == 'r' {
                request_action_on_selected(a, ServiceAction::Restart)
            } else if c == 'R' {
                request_action_on_all(a, ServiceAction::Restart)
            } else if c == 'u' {
                request_action_on_selected(a, ServiceAction::Up)
            } else if c == 'U' {
                request_action_on_all(a, ServiceAction::Up)
            } else if c == 'D' {
                request_action_on_all(a, ServiceAction::Down)
            } else {
                Effect::Nothing
            }
        },
        Key::Down => {
            a.select_next();
            Effect::Nothing
        },
        Key::Up => {
            a.select_prev();
            Effect::Nothing
        },
        Key::Home => {
            a.select_first();
            Effect::Nothing
        },
        Key::End => {
            a.select_last();
            Effect::Nothing
        },
        Key::Enter => {
            match selected_service_name(a) {
                Some(name) => Effect::AttachService(name),
                None => {
                    if a.selected_accepts_args() && !a.abort_selected_run() {
                        a.open_args_prompt();
                        Effect::Nothing
                    } else {
                        launch_selected(a)
                    }
                },
            }
        },
        _ => Effect::Nothing,
    }
}

/// Handles a key in the terminals view.
pub fn handle_key_terminals(a: &mut App, key: Key) -> (effect: Effect)
    requires
        ready(*old(a)),
    ensures
        terminals_key(*old(a), key, *final(a), effect),
        ready(*final(a)),
{
    match key {
        Key::Char(c) => {
            if c == 'q' {
                a.quit();
            } else if c == 'j' {
                a.terminals_select_next();
            } else if c == 'k' {
                a.terminals_select_prev();
            } else if c == 'd' {
                a.terminals_kill_selected();
            } else if c == 'n' {
                a.queue_new_shell();
            }
        },
        Key::Down => a.terminals_select_next(),
        Key::Up => a.terminals_select_prev(),
        Key::Enter => a.terminals_confirm(),
        _ => {},
    }
    Effect::Nothing
}

/// Handles a key in the diff view.
#[verifier::rlimit(40)]
pub fn handle_key_diff(a: &mut App, key: Key) -> (effect: Effect)
    requires
        ready(*old(a)),
    ensures
        diff_key(*old(a), key, *final(a), effect),
        ready(*final(a)),
{
    match key {
        Key::Char(c) => {
            if c == 'q' {
                a.quit();
                return Effect::Nothing;
            }
            if c == 'r' {
                a.diff_mark_stale();
                return Effect::LoadDiff;
            }
            if c == 'w' {
                a.diff.wrap = !a.diff.wrap;
                return Effect::Nothing;
            }
            if c == 'L' {
                if a.diff.lazygit_available {
                    a.pending_lazygit = true;
                } else {
                    a.flash = Some("install lazygit to enable the L keybind".to_owned());
                }
                return Effect::Nothing;
            }
            if c == ']' {
                a.diff.focus = DiffFocus::Body;
                return Effect::Scroll(Scroll::NextHunk);
            }
            if c == '[' {
                a.diff.focus = DiffFocus::Body;
                return Effect::Scroll(Scroll::PreviousHunk);
            }
        },
        Key::Tab | Key::BackTab => {
            a.diff.focus = match a.diff.focus {
                DiffFocus::Files => DiffFocus::Body,
                DiffFocus::Body => DiffFocus::Files,
            };
            return Effect::Nothing;
        },
        _ => {},
    }
    handle_key_diff_pane(a, key)
}

fn handle_key_diff_pane(a: &mut App, key: Key) -> (effect: Effect)
    requires
        ready(*old(a)),
    ensures
        diff_pane_key(*old(a), key, *final(a), effect),
        ready(*final(a)),
{
    match a.diff.focus {
        DiffFocus::Files => match key {
            Key::Down | Key::Char('j') => {
                a.diff_select_next();
                Effect::LoadSelectedDiff
            },
            Key::Up | Key::Char('k') => {
                a.diff_select_prev();
                Effect::LoadSelectedDiff
            },
            Key::Enter | Key::Right | Key::Char('l') => {
                a.diff.focus = DiffFocus::Body;
                Effect::Nothing
            },
            _ => Effect::Nothing,
        },
        DiffFocus::Body => match key {
            Key::Down | Key::Char('j') => Effect::Scroll(Scroll::LineDown),
            Key::Up | Key::Char('k') => Effect::Scroll(Scroll::LineUp),
            Key::PageDown => Effect::Scroll(Scroll::HalfPageDown),
            Key::PageUp => Effect::Scroll(Scroll::HalfPageUp),
            Key::Home => Effect::Scroll(Scroll::Top),
            Key::End | Key::Char('G') => Effect::Scroll(Scroll::Bottom),
            Key::Char('g') => Effect::Scroll(Scroll::TopChord),
            Key::Left | Key::Char('h') | Key::Esc => {
                a.diff.focus = DiffFocus::Files;
                Effect::Nothing
            },
            _ => Effect::Nothing,
        },
    }
}

/// Handles a key without a modal.
pub fn handle_key_normal(a: &mut App, key: Key, control: bool) -> (effect: Effect)
    requires
        ready(*old(a)),
    ensures
        normal_key(*old(a), key, control, *final(a), effect),
        ready(*final(a)),
{
    if control {
        match key {
            Key::Char('c') => a.quit(),
            Key::Char('k') | Key::Char('p') => a.open_palette(),
            _ => {},
        }
        return Effect::Nothing;
    }
    match key {
        Key::Char('T') => {
            a.switch_view(view::View::Terminals);
            return Effect::RefreshWindows;
        },
        Key::Char('G') => {
            a.switch_view(view::View::Diff);
            return Effect::LoadDiff;
        },
        Key::Char('C') => {
            if a.view != view::View::ControlCenter {
                a.switch_view(view::View::ControlCenter);
                return Effect::Nothing;
            }
        },
        Key::Char('W') => {
            return Effect::ListWorktrees;
        },
        _ => {},
    }
    match a.view {
        view::View::Terminals => handle_key_terminals(a, key),
        view::View::Diff => handle_key_diff(a, key),
        view::View::ControlCenter => handle_key_control_center(a, key),
    }
}

/// Handles a key in the palette.
pub fn handle_key_palette(a: &mut App, key: Key, control: bool) -> (effect: Effect)
    requires
        ready(*old(a)),
    ensures
        palette_key(*old(a), key, control, *final(a), effect),
        ready(*final(a)),
{
    if control && key == Key::Char('c') {
        a.quit();
        return Effect::Nothing;
    }
    match key {
        Key::Esc => {
            a.close_palette();
            Effect::Nothing
        },
        Key::Up | Key::BackTab => {
            if let Some(p) = &mut a.palette {
                p.select_prev();
            }
            Effect::Nothing
        },
        Key::Down | Key::Tab => {
            if let Some(p) = &mut a.palette {
                p.select_next();
            }
            Effect::Nothing
        },
        Key::Backspace => {
            if let Some(p) = &mut a.palette {
                p.pop_char();
            }
            Effect::Nothing
        },
        Key::Enter => match a.confirm_palette() {
            Some(outcome) => settle_launch(a, outcome),
            None => Effect::Nothing,
        },
        Key::Char(c) => {
            if !control {
                if let Some(p) = &mut a.palette {
                    p.push_char(c);
                }
            }
            Effect::Nothing
        },
        _ => Effect::Nothing,
    }
}

/// Handles a key in the arguments prompt.
pub fn handle_key_args_prompt(a: &mut App, key: Key, control: bool) -> (effect: Effect)
    requires
        ready(*old(a)),
    ensures
        args_prompt_key(*old(a), key, control, *final(a), effect),
        ready(*final(a)),
{
    if control && key == Key::Char('c') {
        a.quit();
        return Effect::Nothing;
    }
    match key {
        Key::Esc => {
            let _ = a.args_prompt_resolve(false);
            Effect::Nothing
        },
        Key::Backspace => {
            a.args_prompt_pop_char();
            Effect::Nothing
        },
        Key::Enter => match a.args_prompt_resolve(true) {
            Some(outcome) => settle_launch(a, outcome),
            None => Effect::Nothing,
        },
        Key::Char(c) => {
            a.args_prompt_push_char(c);
            Effect::Nothing
        },
        _ => Effect::Nothing,
    }
}

/// Answers the open question.
fn answer(a: &mut App, accept: bool) -> (effect: Effect)
    requires
        ready(*old(a)),
    ensures
        question_answered(*old(a), accept, *final(a), effect),
        ready(*final(a)),
{
    match a.confirm_resolve(accept) {
        Some(relaunch) => {
            let ghost done = *a;
            let ghost res = relaunch;
            let Relaunch { aborted, outcome } = relaunch;
            match outcome {
                Ok(launch) => Effect::Restart { aborted, launch: Some(launch) },
                Err(rej) => {
                    a.flash = Some(launch_message(rej));
                    Effect::Restart { aborted, launch: None }
                },
            }
        },
        None => Effect::Nothing,
    }
}

/// Handles a key while a question is open.
pub fn handle_key_confirm(a: &mut App, key: Key, control: bool) -> (effect: Effect)
    requires
        ready(*old(a)),
    ensures
        confirm_key(*old(a), key, control, *final(a), effect),
        ready(*final(a)),
{
    if control && key == Key::Char('c') {
        a.quit();
        return Effect::Nothing;
    }
    match key {
        Key::Esc | Key::Char('n') | Key::Char('N') => answer(a, false),
        Key::Tab | Key::Left | Key::Right | Key::Char('h') | Key::Char('l') => {
            a.confirm_toggle_focus();
            Effect::Nothing
        },
        Key::Char('y') | Key::Char('Y') => answer(a, true),
        Key::Enter => {
            let accept = match &a.confirm {
                Some(d) => d.yes_focused,
                None => true,
            };
            answer(a, accept)
        },
        _ => Effect::Nothing,
    }
}

/// Handles a key in the worktree switcher.
pub fn handle_key_switcher(a: &mut App, key: Key, control: bool) -> (effect: Effect)
    requires
        ready(*old(a)),
    ensures
        switcher_key(*old(a), key, control, *final(a), effect),
        ready(*final(a)),
{
    if control && key == Key::Char('c') {
        a.quit();
        return Effect::Nothing;
    }
    if let Some(form) = a.switcher_form_snapshot() {
        return match key {
            Key::Esc => {
                a.switcher_form_cancel();
                Effect::Nothing
            },
            Key::Tab => {
                a.switcher_form_toggle_focus();
                Effect::Nothing
            },
            Key::Backspace => {
                a.switcher_form_pop_char();
                Effect::Nothing
            },
            Key::Enter => Effect::CreateWorktree(form),
            Key::Char(c) => {
                a.switcher_form_push_char(c);
                Effect::Nothing
            },
            _ => Effect::Nothing,
        };
    }
    match key {
        Key::Esc => a.close_switcher(),
        Key::Up | Key::Char('k') => a.switcher_select_prev(),
        Key::Down | Key::Char('j') => a.switcher_select_next(),
        Key::Enter => {
            let _ = a.switcher_confirm();
        },
        _ => {},
    }
    Effect::Nothing
}

/// Handles a key press: clears the banner and routes the key by mode. Whatever is
/// selected still exists afterwards.
pub fn handle_event(a: &mut App, key: Key, control: bool) -> (effect: Effect)
    requires
        ready(*old(a)),
    ensures
        key_handled(*old(a), key, control, *final(a), effect),
        ready(*final(a)),
{
    a.flash = None;
    match a.mode {
        Mode::Normal => handle_key_normal(a, key, control),
        Mode::Palette => handle_key_palette(a, key, control),
        Mode::Confirm => handle_key_confirm(a, key, control),
        Mode::ArgsPrompt => handle_key_args_prompt(a, key, control),
        Mode::WorktreeSwitcher => handle_key_switcher(a, key, control),
    }
}

/// Attaches to a service once it is known whether tmux is installed.
pub fn attach_service(a: &mut App, service: &str)
    ensures
        if old(a).terminals.tmux_available == Some(false) {
            flashed(*old(a), *final(a), "tmux not installed — install it to attach"@)
        } else {
            match terminals::attach_refusal(*old(a).config, service@) {
                Some(reason) => flashed(*old(a), *final(a), reason),
                None => terminals::service_attach_queued(*old(a), *final(a), service@),
            }
        },
{
    if let Some(available) = a.terminals.tmux_available {
        if !available {
            a.flash = Some("tmux not installed — install it to attach".to_owned());
            return ;
        }
    }
    if let Err(msg) = a.queue_service_attach(service) {
        a.flash = Some(msg);
    }
}

/// A fresh dashboard is ready for keys.
pub proof fn law_a_fresh_dashboard_is_ready(a: App)
    requires
        a.selection_valid(),
        a.palette is None,
        a.switcher is None,
        a.terminals.is_default_for(*a.config),
        a.diff.is_empty(),
    ensures
        ready(a),
{
}

/// In every mode `Ctrl-C` ends the session and does nothing else but clear the
/// banner.
pub proof fn law_control_c_always_quits(pre: App, post: App, effect: Effect)
    requires
        key_handled(pre, Key::Char('c'), true, post, effect),
    ensures
        post == (App { flash: None, quit: true, ..pre }),
        effect is Nothing,
{
}

/// Whether that run goes on.
pub open spec fn goes_on(run: Option<runner::RunState>) -> bool {
    run is Some && run->0.exit_code is None && run->0.error is None
}

/// The run of the selected row.
pub open spec fn run_selected(a: App) -> Option<runner::RunState> {
    if a.selected < a.items@.len() {
        app::run_of(
            a.runs@,
            a.items@[a.selected as int].kind,
            a.items@[a.selected as int].name@,
        )
    } else {
        None
    }
}

/// In the control center `j` and the arrow down go to the next row, `k` and the arrow up
/// to the one before, Home and End to the first and the last. The first and the last
/// row are the ends, and nothing but the selection and the banner changes.
pub proof fn law_keys_move_the_selection(pre: App, key: Key, post: App, effect: Effect)
    requires
        key_handled(pre, key, false, post, effect),
        pre.mode == Mode::Normal,
        pre.view == view::View::ControlCenter,
        pre.selected < pre.items@.len(),
        key == Key::Char('j') || key is Down || key == Key::Char('k') || key is Up || key is Home
            || key is End,
    ensures
        effect is Nothing,
        post == (App { flash: None, selected: post.selected, ..pre }),
        key == Key::Char('j') || key is Down ==> post.selected == if pre.selected + 1
            == pre.items@.len() {
            pre.selected as int
        } else {
            pre.selected + 1
        },
        key == Key::Char('k') || key is Up ==> post.selected == if pre.selected == 0 {
            0
        } else {
            pre.selected - 1
        },
        key is Home ==> post.selected == 0,
        key is End ==> post.selected == pre.items@.len() - 1,
{
    assert(pre.items@.len() == pre.items.len());
}

/// The capital letters act on all services, where there is a backend and no other
/// action goes on; else the banner says why not. `S` aborts an action that goes on.
pub proof fn law_capital_letters_act_on_all_services(
    pre: App,
    c: char,
    post: App,
    effect: Effect,
)
    requires
        key_handled(pre, Key::Char(c), false, post, effect),
        pre.mode == Mode::Normal,
        pre.view == view::View::ControlCenter,
        c == 'U' || c == 'D' || c == 'R' || c == 'S',
    ensures
        ({
            let going = goes_on(pre.lifecycle_run);
            let action = if c == 'U' {
                ServiceAction::Up
            } else if c == 'D' {
                ServiceAction::Down
            } else if c == 'R' {
                ServiceAction::Restart
            } else {
                ServiceAction::Stop
            };
            &&& !going && pre.has_backend ==> post == (App { flash: None, ..pre }) && (
            effect matches Effect::ServiceAction { action: a, services: s } && a == action
                && s@.len() == 0)
            &&& !going && !pre.has_backend ==> effect is Nothing && post.flash is Some
                && post.flash->0@ == "no backend wired into the TUI"@
            &&& going && c != 'S' ==> effect is Nothing && post.flash is Some && post.flash->0@
                == "another run is in progress"@
            &&& going && c == 'S' ==> effect is AbortLifecycle && post.flash is Some
                && post.flash->0@ == "aborted lifecycle run"@
            &&& post == (App { flash: post.flash, ..pre })
        }),
{
    if let Effect::ServiceAction { action: _, services: s } = effect {
        assert(s.deep_view().len() == s@.len());
    }
}

/// The small letters act on the selected service alone, and do nothing on another row.
/// `s` aborts the run of the selected row first, and then a lifecycle action that goes
/// on.
pub proof fn law_small_letters_act_on_the_selected_service(
    pre: App,
    c: char,
    post: App,
    effect: Effect,
)
    requires
        key_handled(pre, Key::Char(c), false, post, effect),
        pre.mode == Mode::Normal,
        pre.view == view::View::ControlCenter,
        pre.selected < pre.items@.len(),
        c == 'u' || c == 'r' || c == 's',
    ensures
        ({
            let item = pre.items@[pre.selected as int];
            let service = item.kind == ItemKind::Service && pre.services@.contains_key(item.name@);
            let going = goes_on(pre.lifecycle_run);
            let running = goes_on(run_selected(pre));
            let free = c != 's' || (!running && !going);
            let action = if c == 'u' {
                ServiceAction::Up
            } else if c == 'r' {
                ServiceAction::Restart
            } else {
                ServiceAction::Stop
            };
            &&& c == 's' && running ==> effect is AbortRun && post.flash is Some && post.flash->0@
                == "aborted run"@
            &&& c == 's' && !running && going ==> effect is AbortLifecycle && post.flash is Some
                && post.flash->0@ == "aborted lifecycle run"@
            &&& free && !service ==> effect is Nothing && post.flash is None
            &&& free && service && !going && pre.has_backend ==> post.flash is None && (
            effect matches Effect::ServiceAction { action: a, services: s } && a == action
                && s@.len() == 1 && s@[0]@ == pre.services@[item.name@].name@)
            &&& free && service && going ==> effect is Nothing && post.flash is Some
                && post.flash->0@ == "another run is in progress"@
            &&& free && service && !going && !pre.has_backend ==> effect is Nothing && post.flash
                is Some && post.flash->0@ == "no backend wired into the TUI"@
            &&& post == (App { flash: post.flash, ..pre })
        }),
{
    if let Effect::ServiceAction { action: _, services: s } = effect {
        assert(s.deep_view().len() == s@.len());
        if s@.len() == 1 {
            assert(s.deep_view()[0] == s@[0]@);
        }
    }
}

/// Enter attaches to a service; asks for arguments on a row that forwards them and does
/// not run; asks whether to start over on one that runs; and launches another row
/// without arguments, or says in the banner why not.
pub proof fn law_enter_starts_the_selected_row(pre: App, post: App, effect: Effect)
    requires
        key_handled(pre, Key::Enter, false, post, effect),
        pre.mode == Mode::Normal,
        pre.view == view::View::ControlCenter,
        pre.selected < pre.items@.len(),
    ensures
        ({
            let item = pre.items@[pre.selected as int];
            let service = item.kind == ItemKind::Service && pre.services@.contains_key(item.name@);
            let running = goes_on(run_selected(pre));
            let refusal = pre.launch_refusal();
            &&& service ==> post == (App { flash: None, ..pre }) && (
            effect matches Effect::AttachService(s) && s@ == pre.services@[item.name@].name@)
            &&& !service && pre.accepts_args() && !running ==> effect is Nothing && post.mode
                == Mode::ArgsPrompt && post.args_prompt is Some && post.args_prompt->0.item_name@
                == item.name@ && post.args_prompt->0.kind == item.kind && post.runs == pre.runs
            &&& !service && running ==> effect is Nothing && post.mode == Mode::Confirm
                && post.confirm is Some && post.runs == pre.runs
            &&& !service && !running && !pre.accepts_args() && refusal is None ==> (
            effect matches Effect::Launch(l) && l.kind == item.kind && l.name@ == item.name@
                && l.args@.len() == 0) && goes_on(run_selected(post)) && post.selected
                == pre.selected
            &&& !service && !running && !pre.accepts_args() && refusal is Some ==> effect is Nothing
                && post.flash is Some && post.runs == pre.runs && post.mode == pre.mode
        }),
{
    let quiet = App { flash: None, ..pre };
    assert(quiet.launch_refusal() == pre.launch_refusal());
    assert(quiet.accepts_args() == pre.accepts_args());
    if let Effect::Launch(l) = effect {
        assert(l.args.deep_view().len() == l.args@.len());
    }
}

/// Outside a modal `T`, `G`, `C` and `W` do the same in every view: show the terminals
/// and list their windows, show the diff and load it, show the control center, and list
/// the worktrees.
pub proof fn law_views_are_reached_from_everywhere(pre: App, c: char, post: App, effect: Effect)
    requires
        key_handled(pre, Key::Char(c), false, post, effect),
        pre.mode == Mode::Normal,
        c == 'T' || c == 'G' || c == 'C' || c == 'W',
    ensures
        c == 'T' ==> post == (App { flash: None, view: view::View::Terminals, ..pre }) && effect
            is RefreshWindows,
        c == 'G' ==> post == (App { flash: None, view: view::View::Diff, ..pre }) && effect
            is LoadDiff,
        c == 'C' ==> post == (App { flash: None, view: view::View::ControlCenter, ..pre })
            && effect is Nothing,
        c == 'W' ==> post == (App { flash: None, ..pre }) && effect is ListWorktrees,
{
}

/// `q` ends the session in every view, `:` and `/` open the palette in the control
/// center, and `Ctrl-K` and `Ctrl-P` open it in every view; no other control key does
/// anything but end the session.
pub proof fn law_quitting_and_the_palette(
    pre: App,
    key: Key,
    control: bool,
    post: App,
    effect: Effect,
)
    requires
        key_handled(pre, key, control, post, effect),
        pre.mode == Mode::Normal,
    ensures
        !control && key == Key::Char('q') ==> post == (App { flash: None, quit: true, ..pre })
            && effect is Nothing,
        (control && (key == Key::Char('k') || key == Key::Char('p'))) || (!control && pre.view
            == view::View::ControlCenter && (key == Key::Char(':') || key == Key::Char('/'))) ==>
            effect is Nothing && post.mode == Mode::Palette && post.palette is Some
            && post.palette->0.input@.len() == 0 && post.palette->0.selected == 0 && post.runs
            == pre.runs && post.selected == pre.selected,
        control && key != Key::Char('k') && key != Key::Char('p') && key != Key::Char('c') ==> post
            == (App { flash: None, ..pre }) && effect is Nothing,
        key is Other ==> post == (App { flash: None, ..pre }) && effect is Nothing,
{
}

/// In the palette a character goes behind the query and Backspace takes the last one
/// off; either selects the first match. The arrows go round through the matches. Esc
/// closes the palette and changes nothing else.
pub proof fn law_keys_edit_the_query(
    pre: App,
    key: Key,
    post: App,
    effect: Effect,
)
    requires
        key_handled(pre, key, false, post, effect),
        pre.mode == Mode::Palette,
        pre.palette is Some,
        !(key is Enter),
    ensures
        ({
            let p = pre.palette->0;
            let q = post.palette->0;
            let n = p.matches@.len();
            let forth = key is Down || key is Tab;
            let back = key is Up || key is BackTab;
            &&& effect is Nothing
            &&& key is Esc ==> post == (App {
                flash: None,
                palette: None,
                mode: Mode::Normal,
                ..pre
            })
            &&& !(key is Esc) ==> post.palette is Some && q.candidates == p.candidates && post
                == (App { flash: None, palette: post.palette, ..pre })
            &&& key matches Key::Char(c) ==> q.input@ == p.input@.push(c) && q.selected == 0
            &&& key is Backspace && p.input@.len() > 0 ==> q.input@.push(p.input@.last())
                == p.input@ && q.selected == 0
            &&& forth && n > 0 && p.selected < n ==> q.selected == if p.selected + 1 == n {
                0
            } else {
                p.selected + 1
            }
            &&& back && n > 0 && p.selected < n ==> q.selected == if p.selected == 0 {
                n - 1
            } else {
                p.selected - 1
            }
            &&& forth || back ==> q.input == p.input
        }),
{
    let p = pre.palette->0;
    let n = p.matches@.len() as int;
    if p.input@.len() > 0 {
        assert(p.input@.drop_last().push(p.input@.last()) =~= p.input@);
    }
    if n > 0 && p.selected < n {
        if p.selected + 1 == n {
            assert((p.selected + 1) % n == 0) by {
                vstd::arithmetic::div_mod::lemma_mod_self_0(n);
            }
        } else {
            vstd::arithmetic::div_mod::lemma_small_mod((p.selected + 1) as nat, n as nat);
        }
    }
}

/// Enter in the palette goes to the matched row and closes the palette. A row that can
/// be launched is, with the words of the query behind the first; without a match
/// nothing happens.
pub proof fn law_enter_launches_the_match(pre: App, post: App, effect: Effect)
    requires
        key_handled(pre, Key::Enter, false, post, effect),
        pre.mode == Mode::Palette,
        pre.palette_valid(),
        pre.palette is Some,
    ensures
        ({
            let p = pre.palette->0;
            let idx = p.matches@[p.selected as int].item_index;
            let picked = App { flash: None, mode: Mode::Normal, palette: None, selected: idx, ..pre };
            let item = pre.items@[idx as int];
            &&& p.selected >= p.matches@.len() ==> post == (App { flash: None, ..pre }) && effect
                is Nothing
            &&& p.selected < p.matches@.len() ==> post.selected == idx && post.palette is None
            &&& p.selected < p.matches@.len() && picked.launch_refusal() is None ==> (
            effect matches Effect::Launch(l) && l.kind == item.kind && l.name@ == item.name@
                && l.args.deep_view() == palette::args_of(p.input@)) && post.mode == Mode::Normal
            &&& p.selected < p.matches@.len() && picked.launch_refusal() is Some ==> effect
                is Nothing && post.runs == pre.runs
        }),
{
    assert(pre.items@.len() == pre.items.len());
    let p = pre.palette->0;
    if p.selected < p.matches@.len() {
        palette::lemma_matches_below(p, pre.items@.len() as int);
        let idx = p.matches@[p.selected as int].item_index;
        let picked = App { flash: None, mode: Mode::Normal, palette: None, selected: idx, ..pre };
        let quiet = App { flash: None, ..pre };
        assert(quiet.palette_picked(idx) == picked);
        assert(p.matches@[p.selected as int].item_index < pre.items@.len());
    }
}

/// In the prompt a character goes behind the text and Backspace takes the last one off.
/// Esc closes it and launches nothing.
pub proof fn law_keys_edit_the_arguments(pre: App, key: Key, post: App, effect: Effect)
    requires
        key_handled(pre, key, false, post, effect),
        pre.mode == Mode::ArgsPrompt,
        pre.args_prompt is Some,
        !(key is Enter),
    ensures
        ({
            let p = pre.args_prompt->0;
            let q = post.args_prompt->0;
            &&& effect is Nothing
            &&& key is Esc ==> post == (App {
                flash: None,
                args_prompt: None,
                mode: Mode::Normal,
                ..pre
            })
            &&& !(key is Esc) ==> post.args_prompt is Some && q.kind == p.kind && q.item_name
                == p.item_name && post == (App {
                flash: None,
                args_prompt: post.args_prompt,
                ..pre
            })
            &&& key matches Key::Char(c) ==> q.input@ == p.input@.push(c)
            &&& key is Backspace && p.input@.len() > 0 ==> q.input@.push(p.input@.last())
                == p.input@
        }),
{
    let p = pre.args_prompt->0;
    if p.input@.len() > 0 {
        assert(p.input@.drop_last().push(p.input@.last()) =~= p.input@);
    }
}

/// Enter in the prompt closes it and launches the row that it asked about with the words
/// that were typed, where that row can be launched.
pub proof fn law_enter_launches_with_the_arguments(
    pre: App,
    post: App,
    effect: Effect,
    k: int,
)
    requires
        key_handled(pre, Key::Enter, false, post, effect),
        pre.mode == Mode::ArgsPrompt,
        pre.args_prompt is Some,
        0 <= k < pre.items@.len(),
        pre.items@[k].kind == pre.args_prompt->0.kind,
        pre.items@[k].name@ == pre.args_prompt->0.item_name@,
    ensures
        ({
            let p = pre.args_prompt->0;
            let item = pre.items@[post.selected as int];
            &&& post.args_prompt is None && post.selected <= k && item.kind == p.kind && item.name@
                == p.item_name@
            &&& effect is Launch || effect is Nothing
            &&& effect matches Effect::Launch(l) ==> l.kind == p.kind && l.name@ == p.item_name@
                && l.args.deep_view() == App::prompt_args(p.input@)
            &&& effect is Nothing ==> post.runs == pre.runs && (post.flash is Some || post.confirm
                is Some)
            &&& effect is Nothing <==> (App { selected: post.selected, ..pre }).launch_refusal()
                is Some
        }),
{
    let p = pre.args_prompt->0;
    let closed = App { flash: None, args_prompt: None, mode: Mode::Normal, ..pre };
    let mid = choose|mid: App| #[trigger]
        closed.reselected(p.kind, p.item_name@, mid) && launch_tried(
            mid,
            App::prompt_args(p.input@),
            post,
            effect,
        );
    assert(closed.reselected(p.kind, p.item_name@, mid));
    app::law_the_row_asked_about_is_selected(closed, p.kind, p.item_name@, mid);
    let fits = |i: int| closed.items@[i].kind == p.kind && closed.items@[i].name@ == p.item_name@;
    assert(fits(k));
    let asked = App { selected: mid.selected, ..pre };
    assert(asked.launch_refusal() == mid.launch_refusal());
}

/// Yes starts the row over, no and Esc only close the question, Enter takes the focused
/// answer, and Tab, the arrows, `h` and `l` focus the other one.
pub proof fn law_questions_are_answered(pre: App, key: Key, post: App, effect: Effect)
    requires
        key_handled(pre, key, false, post, effect),
        pre.mode == Mode::Confirm,
        pre.confirm is Some,
    ensures
        ({
            let d = pre.confirm->0;
            let yes = key == Key::Char('y') || key == Key::Char('Y') || (key is Enter
                && d.yes_focused);
            let no = key is Esc || key == Key::Char('n') || key == Key::Char('N') || (key is Enter
                && !d.yes_focused);
            let other = key is Tab || key is Left || key is Right || key == Key::Char('h') || key
                == Key::Char('l');
            &&& yes ==> effect is Restart && post.confirm is None && post.mode == Mode::Normal
            &&& no ==> effect is Nothing && post == (App {
                flash: None,
                confirm: None,
                mode: Mode::Normal,
                ..pre
            })
            &&& other ==> effect is Nothing && post.confirm == Some(
                app::ConfirmDialog { yes_focused: !d.yes_focused, ..d },
            ) && post.mode == pre.mode && post.runs == pre.runs
            &&& !yes && !no && !other ==> effect is Nothing && post == (App { flash: None, ..pre })
        }),
{
}

/// A restart that is asked for is of the row that the question was about.
pub proof fn law_the_row_in_question_is_started_over(
    pre: App,
    post: App,
    effect: Effect,
    k: int,
)
    requires
        key_handled(pre, Key::Char('y'), false, post, effect),
        pre.mode == Mode::Confirm,
        pre.confirm is Some,
        0 <= k < pre.items@.len(),
        pre.items@[k].kind == pre.confirm->0.action->kind,
        pre.items@[k].name@ == pre.confirm->0.action->name@,
    ensures
        ({
            let d = pre.confirm->0;
            let run = app::run_of(pre.runs@, d.action->kind, d.action->name@);
            effect matches Effect::Restart { aborted, launch } && (aborted <==> goes_on(run)) && (
            launch matches Some(l) ==> l.kind == d.action->kind && l.name@ == d.action->name@
                && l.args@.len() == 0) && (launch is None ==> post.flash is Some)
        }),
{
    let d = pre.confirm->0;
    let closed = App { flash: None, confirm: None, mode: Mode::Normal, ..pre };
    let quiet = App { flash: None, ..pre };
    assert(question_answered(quiet, true, post, effect));
    assert(closed == (App { confirm: None, mode: Mode::Normal, ..quiet }));
    let (mid, res, done) = choose|mid: App, res: Relaunch, done: App|
        {
            &&& #[trigger] closed.reselected(d.action->kind, d.action->name@, mid)
            &&& #[trigger] mid.relaunched(res, done)
            &&& match res.outcome {
                Ok(launch) => post == done && (effect matches Effect::Restart {
                    aborted,
                    launch: Some(l),
                } && aborted == res.aborted && l == launch),
                Err(r) => flashed(done, post, refusal_message(r@)) && effect == (Effect::Restart {
                    aborted: res.aborted,
                    launch: None,
                }),
            }
        };
    app::law_the_row_asked_about_is_selected(closed, d.action->kind, d.action->name@, mid);
    let fits = |i: int|
        closed.items@[i].kind == d.action->kind && closed.items@[i].name@ == d.action->name@;
    assert(fits(k));
    app::law_starting_over_forgets_the_run(mid, res, done);
}

/// In the switcher the arrows, `j` and `k` move through the worktrees and the row behind
/// them; Enter switches to another worktree, closes the switcher on the current one, and
/// opens the form on the last row. Esc closes it.
pub proof fn law_the_switcher_goes_to_the_selected_worktree(
    pre: App,
    key: Key,
    post: App,
    effect: Effect,
)
    requires
        key_handled(pre, key, false, post, effect),
        pre.mode == Mode::WorktreeSwitcher,
        pre.switcher is Some,
        pre.switcher->0.creating is None,
        pre.switcher->0.selected <= pre.switcher->0.entries@.len(),
    ensures
        ({
            let s = pre.switcher->0;
            let last = s.selected == s.entries@.len();
            let entry = s.entries@[s.selected as int];
            let down = key is Down || key == Key::Char('j');
            let up = key is Up || key == Key::Char('k');
            &&& effect is Nothing
            &&& key is Esc ==> post == (App {
                flash: None,
                switcher: None,
                mode: Mode::Normal,
                ..pre
            })
            &&& key is Enter && !last ==> post.switcher is None && post.mode == Mode::Normal
            &&& key is Enter && !last && entry.is_current ==> post.pending_switch
                == pre.pending_switch
            &&& key is Enter && !last && !entry.is_current ==> post.pending_switch is Some
                && post.pending_switch->0@ == entry.path@
            &&& key is Enter && last ==> post.switcher is Some && post.switcher->0.creating is Some
                && post.switcher->0.creating->0.branch_input@.len() == 0 && post.pending_switch
                == pre.pending_switch
            &&& down ==> post.switcher is Some && post.switcher->0.selected == if last {
                s.selected as int
            } else {
                s.selected + 1
            }
            &&& up ==> post.switcher is Some && post.switcher->0.selected == if s.selected == 0 {
                0
            } else {
                s.selected - 1
            }
            &&& !(key is Esc) && !(key is Enter) && !down && !up ==> post == (App {
                flash: None,
                ..pre
            })
        }),
{
    assert(pre.switcher->0.entries@.len() == pre.switcher->0.entries.len());
}

/// In the form for a new worktree Enter asks for what the form says; Esc closes the
/// form and leaves the switcher open.
pub proof fn law_the_form_asks_for_a_worktree(pre: App, key: Key, post: App, effect: Effect)
    requires
        key_handled(pre, key, false, post, effect),
        pre.mode == Mode::WorktreeSwitcher,
        pre.switcher is Some,
        pre.switcher->0.creating is Some,
    ensures
        ({
            let f = pre.switcher->0.creating->0;
            &&& key is Enter <==> effect is CreateWorktree
            &&& effect matches Effect::CreateWorktree(g) ==> g.path_input@ == f.path_input@
                && g.branch_input@ == f.branch_input@
            &&& key is Esc ==> post.switcher is Some && post.switcher->0.creating is None
                && post.switcher->0.entries == pre.switcher->0.entries && post.mode == pre.mode
            &&& key is Tab ==> post.switcher->0.creating->0.focus != f.focus
            &&& !(key is Enter) ==> effect is Nothing
        }),
{
}

/// In the terminals view the arrows, `j` and `k` move through the rows, `n` asks for a
/// fresh shell, and nothing needs the event loop at once.
pub proof fn law_keys_move_through_the_terminals(pre: App, key: Key, post: App, effect: Effect)
    requires
        key_handled(pre, key, false, post, effect),
        pre.mode == Mode::Normal,
        pre.view == view::View::Terminals,
        pre.terminals.selected < terminals::rows_of(pre).len(),
        terminals::rows_of(pre).len() <= usize::MAX,
    ensures
        ({
            let at = pre.terminals.selected;
            let down = key is Down || key == Key::Char('j');
            let up = key is Up || key == Key::Char('k');
            &&& down ==> post.terminals.selected == if at + 1 == terminals::rows_of(pre).len() {
                at as int
            } else {
                at + 1
            }
            &&& up ==> post.terminals.selected == if at == 0 {
                0
            } else {
                at - 1
            }
            &&& down || up ==> effect is Nothing && post == (App {
                flash: None,
                terminals: terminals::TerminalsState { selected: post.terminals.selected, ..pre.terminals },
                ..pre
            })
            &&& key == Key::Char('n') ==> effect is Nothing && post.pending_attach is Some
                && post.pending_attach->0.session@ == pre.terminals.session_name@
                && post.pending_attach->0.window@ == "scaffl-new"@
                && post.pending_attach->0.create_with is Some
                && post.pending_attach->0.create_with->0@ == terminals::root_shell(
                pre.project_root@,
            )
        }),
{
    let quiet = App { flash: None, ..pre };
    assert(terminals::rows_of(quiet) == terminals::rows_of(pre));
}

/// Enter in the terminals view attaches to what the row stands for in the session: a
/// service's shell, the user's terminal by name, a window by its number; the last row
/// opens the form. `d` takes the user's terminal away, and asks to close the window of
/// another row that has one.
pub proof fn law_rows_of_the_terminals_are_opened_and_closed(
    pre: App,
    key: Key,
    post: App,
    effect: Effect,
)
    requires
        key_handled(pre, key, false, post, effect),
        pre.mode == Mode::Normal,
        pre.view == view::View::Terminals,
        pre.terminals.selected < terminals::rows_of(pre).len(),
        key is Enter || key == Key::Char('d'),
    ensures
        ({
            let row = terminals::rows_of(pre)[pre.terminals.selected as int];
            let req = post.pending_attach->0;
            let session = pre.terminals.session_name@;
            &&& effect is Nothing
            &&& key is Enter ==> post.terminals.terminals == pre.terminals.terminals
                && post.pending_kill == pre.pending_kill
            &&& key is Enter ==> match row {
                terminals::RowModel::Service(name) => match terminals::attach_refusal(
                    *pre.config,
                    name,
                ) {
                    Some(reason) => post.flash is Some && post.flash->0@ == reason
                        && post.pending_attach == pre.pending_attach,
                    None => post.pending_attach is Some && req.session@ == session && req.window@
                        == "svc:"@ + name,
                },
                terminals::RowModel::Terminal(t) => post.pending_attach is Some && req.session@
                    == session && req.window@ == t.name@ && req.create_with.deep_view()
                    == terminals::create_command(t.kind, pre.project_root@),
                terminals::RowModel::Window(w) => post.pending_attach is Some && req.session@
                    == session && req.window@ == text::digits(w.index as nat) && req.create_with
                    is None,
                terminals::RowModel::NewSentinel => post.terminals.creating is Some
                    && post.terminals.creating->0.name_input@.len() == 0
                    && post.terminals.creating->0.command_input@.len() == 0 && post.pending_attach
                    == pre.pending_attach,
            }
            &&& key == Key::Char('d') ==> post.pending_attach == pre.pending_attach
            &&& key == Key::Char('d') && row is Terminal ==> post.terminals.terminals@
                == terminals::terminals_without(
                pre.terminals.terminals@,
                row->Terminal_0.name@,
            ) && post.pending_kill == pre.pending_kill
            &&& key == Key::Char('d') && row is Window ==> post.pending_kill is Some
                && post.pending_kill->0.index == row->Window_0.index
                && post.pending_kill->0.session@ == session && post.terminals == pre.terminals
            &&& key == Key::Char('d') && row is NewSentinel ==> post == (App { flash: None, ..pre })
        }),
{
    let quiet = App { flash: None, ..pre };
    assert(terminals::rows_of(quiet) == terminals::rows_of(pre));
}

/// In the file list of the diff view the arrows, `j` and `k` go to the file beside and
/// load its diff; Enter, the arrow right and `l` lead to the body. Tab goes between the
/// two, and `]` and `[` go to the next hunk and the one before, in the body.
pub proof fn law_keys_move_through_the_changed_files(
    pre: App,
    key: Key,
    post: App,
    effect: Effect,
)
    requires
        key_handled(pre, key, false, post, effect),
        pre.mode == Mode::Normal,
        pre.view == view::View::Diff,
        pre.diff.selected < pre.diff.files@.len(),
    ensures
        ({
            let files = pre.diff.focus == DiffFocus::Files;
            let at = pre.diff.selected;
            let down = key is Down || key == Key::Char('j');
            let up = key is Up || key == Key::Char('k');
            let into = key is Enter || key is Right || key == Key::Char('l');
            let out = key is Left || key is Esc || key == Key::Char('h');
            &&& files && down ==> effect is LoadSelectedDiff && post.diff.selected == if at + 1
                == pre.diff.files@.len() {
                at as int
            } else {
                at + 1
            }
            &&& files && up ==> effect is LoadSelectedDiff && post.diff.selected == if at == 0 {
                0
            } else {
                at - 1
            }
            &&& files && into ==> post.diff.focus == DiffFocus::Body && effect is Nothing
            &&& !files && out ==> post.diff.focus == DiffFocus::Files && effect is Nothing
            &&& key is Tab || key is BackTab ==> post.diff.focus != pre.diff.focus && effect
                is Nothing
            &&& key == Key::Char(']') ==> effect == Effect::Scroll(Scroll::NextHunk)
                && post.diff.focus == DiffFocus::Body
            &&& key == Key::Char('[') ==> effect == Effect::Scroll(Scroll::PreviousHunk)
                && post.diff.focus == DiffFocus::Body
            &&& key == Key::Char('r') ==> effect is LoadDiff
            &&& key == Key::Char('w') ==> post.diff.wrap != pre.diff.wrap && effect is Nothing
            &&& !(files && (down || up)) && key != Key::Char('r') ==> post.diff.selected == at
            &&& key == Key::Char('L') ==> effect is Nothing && (pre.diff.lazygit_available ==>
                post.pending_lazygit) && (!pre.diff.lazygit_available ==> post.flash is Some
                && post.flash->0@ == "install lazygit to enable the L keybind"@
                && post.pending_lazygit == pre.pending_lazygit)
        }),
{
    assert(pre.diff.files@.len() == pre.diff.files.len());
}

/// In the body of the diff view a key moves the text one way: by a line, by half a page,
/// to the end, and with `g` towards the top.
pub proof fn law_keys_scroll_the_body(pre: App, key: Key, post: App, effect: Effect)
    requires
        key_handled(pre, key, false, post, effect),
        pre.mode == Mode::Normal,
        pre.view == view::View::Diff,
        pre.diff.focus == DiffFocus::Body,
    ensures
        key is Down || key == Key::Char('j') ==> effect == Effect::Scroll(Scroll::LineDown),
        key is Up || key == Key::Char('k') ==> effect == Effect::Scroll(Scroll::LineUp),
        key is PageDown ==> effect == Effect::Scroll(Scroll::HalfPageDown),
        key is PageUp ==> effect == Effect::Scroll(Scroll::HalfPageUp),
        key is Home ==> effect == Effect::Scroll(Scroll::Top),
        key is End ==> effect == Effect::Scroll(Scroll::Bottom),
        key == Key::Char('g') ==> effect == Effect::Scroll(Scroll::TopChord),
        effect is Scroll ==> post.diff == (DiffState { focus: DiffFocus::Body, ..pre.diff }),
{
}

} // verus!
