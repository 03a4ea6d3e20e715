//! The terminals view: services, the user's terminals and tmux windows.
use crate::config::model;
use crate::config::model::Config;
use crate::shell;
use crate::shell::shell_escape;
use crate::text;
use crate::text::{concat, concat3};
use crate::tui::app::App;
use crate::tui::view;
use crate::lists;
use vstd::prelude::*;

verus! {

/// The state of the terminals view.
#[derive(Debug, PartialEq, Eq)]
pub struct TerminalsState {
    /// Unknown until probed.
    pub tmux_available: Option<bool>,
    /// The tmux session of this worktree.
    pub session_name: String,
    /// The user's terminals.
    pub terminals: Vec<TerminalRow>,
    /// The windows of the live session, as tmux last listed them.
    pub windows: Vec<TmuxWindow>,
    /// What the windows last showed.
    pub previews: Vec<PanePreview>,
    /// The selected row.
    pub selected: usize,
    /// The open form for a new terminal.
    pub creating: Option<NewTerminalForm>,
}

/// A window of the live tmux session.
#[derive(Debug, PartialEq, Eq)]
pub struct TmuxWindow {
    pub index: u32,
    pub name: String,
    pub cwd: Option<String>,
}

/// What a [`TmuxWindow`] says.
pub ghost struct WindowModel {
    pub index: u32,
    pub name: Seq<char>,
    pub cwd: Option<Seq<char>>,
}

impl DeepView for TmuxWindow {
    type V = WindowModel;

    open spec fn deep_view(&self) -> WindowModel {
        WindowModel { index: self.index, name: self.name@, cwd: self.cwd.deep_view() }
    }
}

impl Clone for TmuxWindow {
    fn clone(&self) -> (res: Self)
        ensures
            res == *self,
    {
        TmuxWindow {
            index: self.index,
            name: self.name.clone(),
            cwd: match &self.cwd {
                Some(c) => Some(c.clone()),
                None => None,
            },
        }
    }
}

/// The visible lines of a window.
#[derive(Debug, PartialEq, Eq)]
pub struct PanePreview {
    pub index: u32,
    pub lines: Vec<String>,
}

/// A terminal that the user defined.
#[derive(Debug, PartialEq, Eq)]
pub struct TerminalRow {
    pub name: String,
    pub kind: TerminalKind,
}

#[derive(Debug, PartialEq, Eq)]
pub enum TerminalKind {
    /// A shell in the project root.
    Shell,
    /// A shell inside a service.
    ServiceShell { service: String },
    /// A command of the user's own.
    Custom { command: String },
}

impl Clone for TerminalRow {
    fn clone(&self) -> (res: Self)
        ensures
            res == *self,
    {
        TerminalRow {
            name: self.name.clone(),
            kind: match &self.kind {
                TerminalKind::Shell => TerminalKind::Shell,
                TerminalKind::ServiceShell { service } => TerminalKind::ServiceShell {
                    service: service.clone(),
                },
                TerminalKind::Custom { command } => TerminalKind::Custom {
                    command: command.clone(),
                },
            },
        }
    }
}

/// The form for a new terminal.
#[derive(Debug, PartialEq, Eq)]
pub struct NewTerminalForm {
    pub name_input: String,
    pub command_input: String,
    pub focus: NewTerminalField,
    pub error: Option<String>,
}

#[derive(Debug, Clone, Copy, PartialEq, Eq, Structural)]
pub enum NewTerminalField {
    Name,
    Command,
}

/// What a [`NewTerminalForm`] says.
pub ghost struct TerminalFormModel {
    pub name_input: Seq<char>,
    pub command_input: Seq<char>,
    pub focus: NewTerminalField,
    pub error: Option<Seq<char>>,
}

impl View for NewTerminalForm {
    type V = TerminalFormModel;

    open spec fn view(&self) -> TerminalFormModel {
        TerminalFormModel {
            name_input: self.name_input@,
            command_input: self.command_input@,
            focus: self.focus,
            error: self.error.deep_view(),
        }
    }
}

impl TerminalFormModel {
    /// The empty form.
    pub open spec fn blank() -> TerminalFormModel {
        TerminalFormModel {
            name_input: Seq::empty(),
            command_input: Seq::empty(),
            focus: NewTerminalField::Name,
            error: None,
        }
    }

    /// The form with `c` behind the focused field; its error is gone.
    pub open spec fn typed(self, c: char) -> TerminalFormModel {
        match self.focus {
            NewTerminalField::Name => TerminalFormModel {
                name_input: self.name_input.push(c),
                error: None,
                ..self
            },
            NewTerminalField::Command => TerminalFormModel {
                command_input: self.command_input.push(c),
                error: None,
                ..self
            },
        }
    }

    /// The form without the last character of the focused field; its error is gone.
    pub open spec fn erased(self) -> TerminalFormModel {
        match self.focus {
            NewTerminalField::Name => TerminalFormModel {
                name_input: text::without_last(self.name_input),
                error: None,
                ..self
            },
            NewTerminalField::Command => TerminalFormModel {
                command_input: text::without_last(self.command_input),
                error: None,
                ..self
            },
        }
    }

    /// The form with the other field focused.
    pub open spec fn refocused(self) -> TerminalFormModel {
        TerminalFormModel {
            focus: match self.focus {
                NewTerminalField::Name => NewTerminalField::Command,
                NewTerminalField::Command => NewTerminalField::Name,
            },
            ..self
        }
    }
}

/// Focusing the other field twice changes nothing, and erasing undoes typing in a
/// form without an error.
pub proof fn law_terminal_form_edits_undo(form: TerminalFormModel, c: char)
    ensures
        form.refocused().refocused() == form,
        form.error is None ==> form.typed(c).erased() == form,
{
    assert(form.name_input.push(c).drop_last() =~= form.name_input);
    assert(form.command_input.push(c).drop_last() =~= form.command_input);
}

/// One row of the terminals view.
#[derive(Debug, PartialEq, Eq)]
pub enum TerminalsRow {
    Service(String),
    Terminal(TerminalRow),
    Window(TmuxWindow),
    NewSentinel,
}

/// What a [`TerminalsRow`] says.
pub ghost enum RowModel {
    Service(Seq<char>),
    Terminal(TerminalRow),
    Window(TmuxWindow),
    NewSentinel,
}

impl DeepView for TerminalsRow {
    type V = RowModel;

    open spec fn deep_view(&self) -> RowModel {
        match self {
            TerminalsRow::Service(name) => RowModel::Service(name@),
            TerminalsRow::Terminal(t) => RowModel::Terminal(*t),
            TerminalsRow::Window(w) => RowModel::Window(*w),
            TerminalsRow::NewSentinel => RowModel::NewSentinel,
        }
    }
}

/// A request to leave the dashboard for a tmux window.
#[derive(Debug, PartialEq, Eq)]
pub struct AttachRequest {
    pub session: String,
    pub window: String,
    /// The command that creates the window, unless it exists.
    pub create_with: Option<String>,
}

/// A request to close a tmux window.
#[derive(Debug, PartialEq, Eq)]
pub struct KillRequest {
    pub session: String,
    pub index: u32,
}

/// The tmux session of a worktree: the project's name, and the worktree's slug if
/// it has one.
pub open spec fn session_of(config: Config, slug: Seq<char>) -> Seq<char> {
    let project = match config.project.name {
        Some(name) => name@,
        None => "scaffl"@,
    };
    if slug.len() == 0 {
        "scaffl-"@ + project
    } else {
        "scaffl-"@ + project + "-"@ + slug
    }
}

/// The tmux session of a worktree.
pub fn session_for(config: &Config, slug: &str) -> (res: String)
    ensures
        res@ == session_of(*config, slug@),
{
    let project = match &config.project.name {
        Some(name) => name.as_str(),
        None => "scaffl",
    };
    let base = concat("scaffl-", project);
    proof {
        reveal_strlit("");
    }
    if slug.is_empty() {
        base
    } else {
        concat3(base.as_str(), "-", slug)
    }
}

impl TerminalsState {
    /// The state that a project starts with: one shell, nothing probed.
    pub open spec fn is_default_for(&self, config: Config) -> bool {
        &&& self.tmux_available is None
        &&& self.session_name@ == session_of(config, ""@)
        &&& self.terminals@.len() == 1
        &&& self.terminals@[0].name@ == "shell"@ && self.terminals@[0].kind is Shell
        &&& self.windows@.len() == 0
        &&& self.previews@.len() == 0
        &&& self.selected == 0
        &&& self.creating is None
    }

    /// The state that a project starts with.
    pub fn default_for(config: &Config) -> (res: Self)
        ensures
            res.is_default_for(*config),
    {
        let mut terminals: Vec<TerminalRow> = Vec::new();
        terminals.push(TerminalRow { name: "shell".to_owned(), kind: TerminalKind::Shell });
        TerminalsState {
            tmux_available: None,
            session_name: session_for(config, ""),
            terminals,
            windows: Vec::new(),
            previews: Vec::new(),
            selected: 0,
            creating: None,
        }
    }
}

/// The rows of the terminals view: services, the user's terminals, live windows,
/// and the row for a new one.
pub open spec fn rows_of(app: App) -> Seq<RowModel> {
    app.services.keys().map_values(|n: Seq<char>| RowModel::Service(n))
        + app.terminals.terminals@.map_values(|t: TerminalRow| RowModel::Terminal(t))
        + app.terminals.windows@.map_values(|w: TmuxWindow| RowModel::Window(w)) + seq![
        RowModel::NewSentinel,
    ]
}

/// The shell command of a terminal in the project root.
pub open spec fn root_shell(project_root: Seq<char>) -> Seq<char> {
    "cd "@ + shell::quoted(project_root) + " && exec ${SHELL:-/bin/sh}"@
}

/// What creates the window of a terminal.
pub open spec fn create_command(kind: TerminalKind, project_root: Seq<char>) -> Option<Seq<char>> {
    match kind {
        TerminalKind::Shell => Some(root_shell(project_root)),
        TerminalKind::Custom { command } => Some(command@),
        TerminalKind::ServiceShell { .. } => None,
    }
}

/// Why no shell can be opened in a service; nothing when one can.
pub open spec fn attach_refusal(config: Config, service: Seq<char>) -> Option<Seq<char>> {
    let systemd = config.services.systemd@;
    let custom = config.services.custom@;
    if model::systemd_named(systemd, systemd.len() as int, service) {
        Some("`"@ + service + "` is a systemd unit — no interactive shell to attach to"@)
    } else if model::custom_named(custom, custom.len() as int, service) {
        Some("`"@ + service + "` is a custom service — create a custom terminal instead"@)
    } else {
        None
    }
}

/// `req` attaches to that window of the session.
pub open spec fn attaches(
    req: Option<AttachRequest>,
    session: Seq<char>,
    window: Seq<char>,
    create_with: Option<Seq<char>>,
) -> bool {
    req matches Some(r) && r.session@ == session && r.window@ == window
        && r.create_with.deep_view() == create_with
}

/// `post` is `app` with an attach to the shell of `service` queued and the
/// terminals view shown.
pub open spec fn service_attach_queued(app: App, post: App, service: Seq<char>) -> bool {
    &&& post == (App {
        pending_attach: post.pending_attach,
        view: view::View::Terminals,
        ..app
    })
    &&& attaches(
        post.pending_attach,
        app.terminals.session_name@,
        "svc:"@ + service,
        Some(
            "docker compose exec -it "@ + service + " sh -c 'exec ${SHELL:-/bin/sh}'"@,
        ),
    )
}

/// `app` with row `selected` of the terminals view selected.
pub open spec fn terminals_moved(app: App, selected: usize) -> App {
    App { terminals: TerminalsState { selected, ..app.terminals }, ..app }
}

/// `post` is `app` with `form` open in the terminals view.
pub open spec fn terminal_form_is(app: App, post: App, form: TerminalFormModel) -> bool {
    &&& post == (App { terminals: post.terminals, ..app })
    &&& post.terminals == (TerminalsState { creating: post.terminals.creating, ..app.terminals })
    &&& post.terminals.creating matches Some(f) && f@ == form
}

/// Whether one of the first `n` terminals is named `name`.
pub open spec fn terminal_named(rows: Seq<TerminalRow>, n: int, name: Seq<char>) -> bool {
    exists|i: int| 0 <= i < n && (#[trigger] rows[i]).name@ == name
}

/// The terminals that are not named `name`.
pub open spec fn terminals_without(rows: Seq<TerminalRow>, name: Seq<char>) -> Seq<TerminalRow>
    decreases rows.len(),
{
    if rows.len() == 0 {
        seq![]
    } else {
        let rest = terminals_without(rows.drop_last(), name);
        if rows.last().name@ == name {
            rest
        } else {
            rest.push(rows.last())
        }
    }
}

/// `selected`, or the last of `total` rows when it lies beyond them.
pub open spec fn clamped(selected: usize, total: nat) -> usize {
    if selected >= total && total > 0 {
        (total - 1) as usize
    } else {
        selected
    }
}

/// The window named `name` stands first at `i`.
pub open spec fn window_at(windows: Seq<TmuxWindow>, name: Seq<char>, i: int) -> bool {
    &&& 0 <= i < windows.len()
    &&& windows[i].name@ == name
    &&& forall|k: int| 0 <= k < i ==> (#[trigger] windows[k]).name@ != name
}

/// The first window named `name`.
pub fn find_window(windows: &Vec<TmuxWindow>, name: &str) -> (res: Option<usize>)
    ensures
        match res {
            Some(i) => window_at(windows@, name@, i as int),
            None => forall|k: int|
                0 <= k < windows@.len() ==> (#[trigger] windows@[k]).name@ != name@,
        },
{
    let mut i: usize = 0;
    while i < windows.len()
        invariant
            i <= windows@.len(),
            forall|k: int| 0 <= k < i ==> (#[trigger] windows@[k]).name@ != name@,
        decreases windows@.len() - i,
    {
        if *windows[i].name.as_str() == *name {
            return Some(i);
        }
        i += 1;
    }
    None
}

/// `index` is that of the first window named `name`.
pub open spec fn index_of_window(
    windows: Seq<TmuxWindow>,
    name: Seq<char>,
    index: Option<u32>,
) -> bool {
    match index {
        Some(i) => exists|k: int| #[trigger] window_at(windows, name, k) && windows[k].index == i,
        None => forall|k: int| 0 <= k < windows.len() ==> (#[trigger] windows[k]).name@ != name,
    }
}

/// The window that a row shows or closes: its own, or that of its service.
pub open spec fn row_window(row: RowModel, windows: Seq<TmuxWindow>, index: Option<u32>) -> bool {
    match row {
        RowModel::Window(w) => index == Some(w.index),
        RowModel::Service(name) => index_of_window(windows, "svc:"@ + name, index),
        _ => index is None,
    }
}

/// The window that a row shows or closes.
pub fn window_of_row(row: &TerminalsRow, windows: &Vec<TmuxWindow>) -> (res: Option<u32>)
    ensures
        row_window(row.deep_view(), windows@, res),
{
    match row {
        TerminalsRow::Window(w) => {
            Some(w.index)
        },
        TerminalsRow::Service(name) => {
            let wanted = concat("svc:", name.as_str());
            match find_window(windows, wanted.as_str()) {
                Some(i) => {
                    assert(window_at(windows@, wanted@, i as int));
                    let res = Some(windows[i].index);
                    assert(index_of_window(windows@, wanted@, res));
                    res
                },
                None => None,
            }
        },
        _ => None,
    }
}

impl App {
    /// The terminals view.
    pub fn terminals(&self) -> (res: &TerminalsState)
        ensures
            *res == self.terminals,
    {
        &self.terminals
    }

    /// The terminals, to be changed.
    pub fn terminals_mut(&mut self) -> (res: &mut TerminalsState)
        ensures
            *res == old(self).terminals,
            *final(self) == (App { terminals: *final(res), ..*old(self) }),
    {
        &mut self.terminals
    }

    /// Records whether tmux is installed.
    pub fn set_tmux_available(&mut self, available: bool)
        ensures
            *final(self) == (App {
                terminals: TerminalsState {
                    tmux_available: Some(available),
                    ..old(self).terminals
                },
                ..*old(self)
            }),
    {
        self.terminals.tmux_available = Some(available);
    }

    /// Takes in the windows that tmux listed and keeps the selection within the
    /// rows.
    pub fn terminals_set_windows(&mut self, windows: Vec<TmuxWindow>)
        requires
            rows_of(*old(self)).len() <= usize::MAX,
            old(self).services.keys().len() + old(self).terminals.terminals@.len() + windows@.len()
                + 1 <= usize::MAX,
        ensures
            *final(self) == (App {
                terminals: TerminalsState {
                    windows,
                    selected: final(self).terminals.selected,
                    ..old(self).terminals
                },
                ..*old(self)
            }),
            final(self).terminals.selected == clamped(
                old(self).terminals.selected,
                rows_of(*final(self)).len(),
            ),
    {
        self.terminals.windows = windows;
        let total: usize = self.services.len() + self.terminals.terminals.len()
            + self.terminals.windows.len() + 1;
        if self.terminals.selected >= total {
            self.terminals.selected = total - 1;
        }
    }

    /// The rows of the terminals view.
    pub fn terminals_rows(&self) -> (res: Vec<TerminalsRow>)
        ensures
            res.deep_view() == rows_of(*self),
            res@.len() >= 1,
    {
        let ghost a = self.services.keys().map_values(|n: Seq<char>| RowModel::Service(n));
        let ghost b = self.terminals.terminals@.map_values(
            |t: TerminalRow| RowModel::Terminal(t),
        );
        let ghost c = self.terminals.windows@.map_values(|w: TmuxWindow| RowModel::Window(w));
        let mut rows: Vec<TerminalsRow> = Vec::new();
        let mut i: usize = 0;
        while i < self.services.len()
            invariant
                i <= self.services.keys().len(),
                a == self.services.keys().map_values(|n: Seq<char>| RowModel::Service(n)),
                rows.deep_view() == a.take(i as int),
            decreases self.services.keys().len() - i,
        {
            let ghost before = rows.deep_view();
            rows.push(TerminalsRow::Service(self.services.key_at(i).clone()));
            assert(rows.deep_view() =~= before.push(a[i as int]));
            assert(a.take(i + 1) =~= before.push(a[i as int]));
            i += 1;
        }
        assert(a.take(i as int) =~= a);
        i = 0;
        assert(rows.deep_view() =~= a + b.take(0));
        while i < self.terminals.terminals.len()
            invariant
                i <= self.terminals.terminals@.len(),
                b == self.terminals.terminals@.map_values(|t: TerminalRow| RowModel::Terminal(t)),
                rows.deep_view() == a + b.take(i as int),
            decreases self.terminals.terminals@.len() - i,
        {
            let ghost before = rows.deep_view();
            rows.push(TerminalsRow::Terminal(self.terminals.terminals[i].clone()));
            assert(rows.deep_view() =~= before.push(b[i as int]));
            assert(b.take(i + 1) =~= b.take(i as int).push(b[i as int]));
            assert(before.push(b[i as int]) =~= a + b.take(i + 1));
            i += 1;
        }
        assert(b.take(i as int) =~= b);
        i = 0;
        assert(rows.deep_view() =~= a + b + c.take(0));
        while i < self.terminals.windows.len()
            invariant
                i <= self.terminals.windows@.len(),
                c == self.terminals.windows@.map_values(|w: TmuxWindow| RowModel::Window(w)),
                rows.deep_view() == a + b + c.take(i as int),
            decreases self.terminals.windows@.len() - i,
        {
            let ghost before = rows.deep_view();
            rows.push(TerminalsRow::Window(self.terminals.windows[i].clone()));
            assert(rows.deep_view() =~= before.push(c[i as int]));
            assert(c.take(i + 1) =~= c.take(i as int).push(c[i as int]));
            assert(before.push(c[i as int]) =~= a + b + c.take(i + 1));
            i += 1;
        }
        assert(c.take(i as int) =~= c);
        let ghost before = rows.deep_view();
        rows.push(TerminalsRow::NewSentinel);
        assert(rows.deep_view() =~= before.push(RowModel::NewSentinel));
        assert(rows.deep_view() =~= rows_of(*self));
        rows
    }

    /// Selects the next row; the last one stays selected.
    pub fn terminals_select_next(&mut self)
        requires
            old(self).terminals.selected < rows_of(*old(self)).len(),
        ensures
            *final(self) == terminals_moved(
                *old(self),
                if old(self).terminals.selected + 1 < rows_of(*old(self)).len() {
                    (old(self).terminals.selected + 1) as usize
                } else {
                    old(self).terminals.selected
                },
            ),
            final(self).terminals.selected < rows_of(*final(self)).len(),
    {
        let rows = self.terminals_rows();
        assert(rows@.len() == rows.deep_view().len());
        if self.terminals.selected < rows.len() - 1 {
            self.terminals.selected = self.terminals.selected + 1;
        }
    }

    /// Selects the previous row; the first one stays selected.
    pub fn terminals_select_prev(&mut self)
        ensures
            *final(self) == terminals_moved(
                *old(self),
                if old(self).terminals.selected > 0 {
                    (old(self).terminals.selected - 1) as usize
                } else {
                    0
                },
            ),
    {
        if self.terminals.selected > 0 {
            self.terminals.selected = self.terminals.selected - 1;
        }
    }

    /// The name `service` among the systemd services.
    fn is_systemd(&self, service: &str) -> (res: bool)
        ensures
            res == model::systemd_named(
                self.config.services.systemd@,
                self.config.services.systemd@.len() as int,
                service@,
            ),
    {
        let mut i: usize = 0;
        while i < self.config.services.systemd.len()
            invariant
                i <= self.config.services.systemd@.len(),
                !model::systemd_named(self.config.services.systemd@, i as int, service@),
            decreases self.config.services.systemd@.len() - i,
        {
            if *self.config.services.systemd[i].name.as_str() == *service {
                return true;
            }
            i += 1;
        }
        false
    }

    /// The name `service` among the custom services.
    fn is_custom(&self, service: &str) -> (res: bool)
        ensures
            res == model::custom_named(
                self.config.services.custom@,
                self.config.services.custom@.len() as int,
                service@,
            ),
    {
        let mut i: usize = 0;
        while i < self.config.services.custom.len()
            invariant
                i <= self.config.services.custom@.len(),
                !model::custom_named(self.config.services.custom@, i as int, service@),
            decreases self.config.services.custom@.len() - i,
        {
            if *self.config.services.custom[i].name.as_str() == *service {
                return true;
            }
            i += 1;
        }
        false
    }

    /// The tag of a service row whose service no container backend runs.
    pub fn service_badge(&self, service: &str) -> (res: Option<&'static str>)
        ensures
            res.deep_view() == badge_of(*self.config, service@),
    {
        if self.is_systemd(service) {
            Some("systemd")
        } else if self.is_custom(service) {
            Some("custom")
        } else {
            None
        }
    }

    /// Queues an attach to the shell of a container service and shows the
    /// terminals view. Refused for systemd and custom services, which have no
    /// shell to attach to.
    pub fn queue_service_attach(&mut self, service: &str) -> (res: Result<(), String>)
        ensures
            match res {
                Ok(_) => attach_refusal(*old(self).config, service@) is None
                    && service_attach_queued(*old(self), *final(self), service@),
                Err(e) => attach_refusal(*old(self).config, service@) == Some(e@) && *final(self)
                    == *old(self),
            },
    {
        if self.is_systemd(service) {
            return Err(
                concat3("`", service, "` is a systemd unit — no interactive shell to attach to"),
            );
        }
        if self.is_custom(service) {
            return Err(
                concat3("`", service, "` is a custom service — create a custom terminal instead"),
            );
        }
        self.pending_attach = Some(
            AttachRequest {
                session: self.terminals.session_name.clone(),
                window: concat("svc:", service),
                create_with: Some(
                    concat3(
                        "docker compose exec -it ",
                        service,
                        " sh -c 'exec ${SHELL:-/bin/sh}'",
                    ),
                ),
            },
        );
        self.view = view::View::Terminals;
        Ok(())
    }

    /// The command of a shell in the project root.
    fn root_shell_command(&self) -> (res: String)
        ensures
            res@ == root_shell(self.project_root@),
    {
        let quoted = shell_escape(self.project_root.as_str());
        concat3("cd ", quoted.as_str(), " && exec ${SHELL:-/bin/sh}")
    }

    /// Queues an attach to a fresh shell window.
    pub fn queue_new_shell(&mut self)
        ensures
            *final(self) == (App { pending_attach: final(self).pending_attach, ..*old(self) }),
            attaches(
                final(self).pending_attach,
                old(self).terminals.session_name@,
                "scaffl-new"@,
                Some(root_shell(old(self).project_root@)),
            ),
    {
        let command = self.root_shell_command();
        self.pending_attach = Some(
            AttachRequest {
                session: self.terminals.session_name.clone(),
                window: "scaffl-new".to_owned(),
                create_with: Some(command),
            },
        );
    }

    /// Resolves the selected row: queues an attach for a service, a terminal or a
    /// window, and opens the form on the last row. A service that cannot be
    /// attached to is explained in the banner.
    pub fn terminals_confirm(&mut self)
        ensures
            ({
                let rows = rows_of(*old(self));
                let at = old(self).terminals.selected as int;
                if at >= rows.len() {
                    *final(self) == *old(self)
                } else {
                    match rows[at] {
                        RowModel::Service(name) => match attach_refusal(*old(self).config, name) {
                            Some(reason) => *final(self) == (App {
                                flash: final(self).flash,
                                ..*old(self)
                            }) && final(self).flash.deep_view() == Some(reason),
                            None => service_attach_queued(*old(self), *final(self), name),
                        },
                        RowModel::Terminal(t) => *final(self) == (App {
                            pending_attach: final(self).pending_attach,
                            ..*old(self)
                        }) && attaches(
                            final(self).pending_attach,
                            old(self).terminals.session_name@,
                            t.name@,
                            create_command(t.kind, old(self).project_root@),
                        ),
                        RowModel::Window(w) => *final(self) == (App {
                            pending_attach: final(self).pending_attach,
                            ..*old(self)
                        }) && attaches(
                            final(self).pending_attach,
                            old(self).terminals.session_name@,
                            text::digits(w.index as nat),
                            None,
                        ),
                        RowModel::NewSentinel => terminal_form_is(
                            *old(self),
                            *final(self),
                            TerminalFormModel::blank(),
                        ),
                    }
                }
            }),
    {
        let rows = self.terminals_rows();
        if self.terminals.selected >= rows.len() {
            return ;
        }
        let row = &rows[self.terminals.selected];
        assert(row.deep_view() == rows.deep_view()[self.terminals.selected as int]);
        match row {
            TerminalsRow::Service(name) => {
                if let Err(msg) = self.queue_service_attach(name.as_str()) {
                    self.flash = Some(msg);
                }
            },
            TerminalsRow::Terminal(term) => {
                let create_with = match &term.kind {
                    TerminalKind::Shell => Some(self.root_shell_command()),
                    TerminalKind::Custom { command } => Some(command.clone()),
                    TerminalKind::ServiceShell { .. } => None,
                };
                self.pending_attach = Some(
                    AttachRequest {
                        session: self.terminals.session_name.clone(),
                        window: term.name.clone(),
                        create_with,
                    },
                );
            },
            TerminalsRow::Window(w) => {
                self.pending_attach = Some(
                    AttachRequest {
                        session: self.terminals.session_name.clone(),
                        window: text::decimal(w.index as u64),
                        create_with: None,
                    },
                );
            },
            TerminalsRow::NewSentinel => {
                self.terminals.creating = Some(
                    NewTerminalForm {
                        name_input: String::new(),
                        command_input: String::new(),
                        focus: NewTerminalField::Name,
                        error: None,
                    },
                );
            },
        }
    }

    /// `post` is this state without the terminals named `name`, the selection kept
    /// within the rows.
    pub open spec fn terminal_deleted(&self, post: App, name: Seq<char>) -> bool {
        &&& post == (App { terminals: post.terminals, ..*self })
        &&& post.terminals == (TerminalsState {
            terminals: post.terminals.terminals,
            selected: clamped(self.terminals.selected, rows_of(post).len()),
            ..self.terminals
        })
        &&& post.terminals.terminals@ == terminals_without(self.terminals.terminals@, name)
    }

    /// Deletes the selected terminal of the user. Other rows are not deletable.
    pub fn terminals_delete_selected(&mut self)
        ensures
            ({
                let rows = rows_of(*old(self));
                let at = old(self).terminals.selected as int;
                if at < rows.len() && rows[at] is Terminal {
                    old(self).terminal_deleted(*final(self), rows[at]->Terminal_0.name@)
                } else {
                    *final(self) == *old(self)
                }
            }),
    {
        let rows = self.terminals_rows();
        if self.terminals.selected >= rows.len() {
            return ;
        }
        assert(rows@[self.terminals.selected as int].deep_view()
            == rows.deep_view()[self.terminals.selected as int]);
        let target = match &rows[self.terminals.selected] {
            TerminalsRow::Terminal(t) => t.name.clone(),
            _ => return ,
        };
        drop_terminals(&mut self.terminals.terminals, target.as_str());
        let left = self.terminals_rows();
        assert(left@.len() == left.deep_view().len());
        if self.terminals.selected >= left.len() {
            self.terminals.selected = left.len() - 1;
        }
    }

    /// Closes what the selected row stands for: queues the closing of its window,
    /// or deletes the user's terminal.
    pub fn terminals_kill_selected(&mut self)
        ensures
            ({
                let rows = rows_of(*old(self));
                let at = old(self).terminals.selected as int;
                if at >= rows.len() {
                    *final(self) == *old(self)
                } else if rows[at] is Terminal {
                    old(self).terminal_deleted(*final(self), rows[at]->Terminal_0.name@)
                } else {
                    exists|index: Option<u32>| #[trigger]
                        row_window(rows[at], old(self).terminals.windows@, index) && match index {
                            Some(i) => *final(self) == (App {
                                pending_kill: final(self).pending_kill,
                                ..*old(self)
                            }) && (final(self).pending_kill matches Some(k) && k.index == i
                                && k.session@ == old(self).terminals.session_name@),
                            None => *final(self) == *old(self),
                        }
                }
            }),
    {
        let rows = self.terminals_rows();
        if self.terminals.selected >= rows.len() {
            return ;
        }
        let row = &rows[self.terminals.selected];
        assert(row.deep_view() == rows.deep_view()[self.terminals.selected as int]);
        if let TerminalsRow::Terminal(_) = row {
            self.terminals_delete_selected();
            return ;
        }
        let index = window_of_row(row, &self.terminals.windows);
        assert(row_window(row.deep_view(), self.terminals.windows@, index));
        if let Some(i) = index {
            self.pending_kill = Some(
                KillRequest { session: self.terminals.session_name.clone(), index: i },
            );
        }
    }

    /// Appends `c` to the focused field of the open form.
    pub fn terminals_form_push_char(&mut self, c: char)
        ensures
            match old(self).terminals.creating {
                Some(f) => terminal_form_is(*old(self), *final(self), f@.typed(c)),
                None => *final(self) == *old(self),
            },
    {
        if let Some(form) = &mut self.terminals.creating {
            match form.focus {
                NewTerminalField::Name => form.name_input.push(c),
                NewTerminalField::Command => form.command_input.push(c),
            }
            form.error = None;
        }
    }

    /// Drops the last character of the focused field of the open form.
    pub fn terminals_form_pop_char(&mut self)
        ensures
            match old(self).terminals.creating {
                Some(f) => terminal_form_is(*old(self), *final(self), f@.erased()),
                None => *final(self) == *old(self),
            },
    {
        if let Some(form) = &mut self.terminals.creating {
            match form.focus {
                NewTerminalField::Name => text::drop_last_char(&mut form.name_input),
                NewTerminalField::Command => text::drop_last_char(&mut form.command_input),
            }
            form.error = None;
        }
    }

    /// Focuses the other field of the open form.
    pub fn terminals_form_toggle_focus(&mut self)
        ensures
            match old(self).terminals.creating {
                Some(f) => terminal_form_is(*old(self), *final(self), f@.refocused()),
                None => *final(self) == *old(self),
            },
    {
        if let Some(form) = &mut self.terminals.creating {
            form.focus = match form.focus {
                NewTerminalField::Name => NewTerminalField::Command,
                NewTerminalField::Command => NewTerminalField::Name,
            };
        }
    }

    /// Closes the form.
    pub fn terminals_form_cancel(&mut self)
        ensures
            *final(self) == (App {
                terminals: TerminalsState { creating: None, ..old(self).terminals },
                ..*old(self)
            }),
    {
        self.terminals.creating = None;
    }

    /// Turns the form into a terminal of the user. A blank name and a name that is
    /// taken are explained in the form; a blank command means a shell.
    pub fn terminals_form_submit(&mut self)
        ensures
            match old(self).terminals.creating {
                None => *final(self) == *old(self),
                Some(f) => {
                    let name = text::trimmed(f.name_input@);
                    let command = text::trimmed(f.command_input@);
                    let rows = old(self).terminals.terminals@;
                    if name.len() == 0 {
                        terminal_form_is(
                            *old(self),
                            *final(self),
                            TerminalFormModel { error: Some("name is required"@), ..f@ },
                        )
                    } else if terminal_named(rows, rows.len() as int, name) {
                        terminal_form_is(
                            *old(self),
                            *final(self),
                            TerminalFormModel {
                                error: Some("`"@ + name + "` already exists"@),
                                ..f@
                            },
                        )
                    } else {
                        let added = final(self).terminals.terminals@.last();
                        &&& *final(self) == (App {
                            terminals: TerminalsState {
                                terminals: final(self).terminals.terminals,
                                creating: None,
                                ..old(self).terminals
                            },
                            ..*old(self)
                        })
                        &&& final(self).terminals.terminals@ == rows.push(added)
                        &&& added.name@ == name
                        &&& command.len() == 0 ==> added.kind is Shell
                        &&& command.len() > 0 ==> (added.kind matches TerminalKind::Custom {
                            command: c,
                        } && c@ == command)
                    }
                },
            },
    {
        let (name, command) = match &self.terminals.creating {
            Some(form) => (
                text::trim(form.name_input.as_str()),
                text::trim(form.command_input.as_str()),
            ),
            None => return ,
        };
        if name.as_str().is_empty() {
            if let Some(form) = &mut self.terminals.creating {
                form.error = Some("name is required".to_owned());
            }
            return ;
        }
        let mut i: usize = 0;
        while i < self.terminals.terminals.len()
            invariant
                i <= self.terminals.terminals@.len(),
                *self == *old(self),
                self.terminals.creating matches Some(f) && name@ == text::trimmed(f.name_input@)
                    && name@.len() > 0,
                !terminal_named(self.terminals.terminals@, i as int, name@),
            decreases self.terminals.terminals@.len() - i,
        {
            if *self.terminals.terminals[i].name.as_str() == *name.as_str() {
                assert(terminal_named(
                    self.terminals.terminals@,
                    self.terminals.terminals@.len() as int,
                    name@,
                ));
                if let Some(form) = &mut self.terminals.creating {
                    form.error = Some(concat3("`", name.as_str(), "` already exists"));
                }
                return ;
            }
            i += 1;
        }
        let kind = if command.as_str().is_empty() {
            TerminalKind::Shell
        } else {
            TerminalKind::Custom { command }
        };
        self.terminals.terminals.push(TerminalRow { name, kind });
        self.terminals.creating = None;
    }

    /// Takes the queued attach.
    pub fn take_pending_attach(&mut self) -> (res: Option<AttachRequest>)
        ensures
            res == old(self).pending_attach,
            *final(self) == (App { pending_attach: None, ..*old(self) }),
    {
        self.pending_attach.take()
    }

    /// Takes the queued closing of a window.
    pub fn take_pending_kill_window(&mut self) -> (res: Option<KillRequest>)
        ensures
            res == old(self).pending_kill,
            *final(self) == (App { pending_kill: None, ..*old(self) }),
    {
        self.pending_kill.take()
    }
}

/// The tag of a service that no container backend runs.
pub open spec fn badge_of(config: Config, service: Seq<char>) -> Option<Seq<char>> {
    let systemd = config.services.systemd@;
    let custom = config.services.custom@;
    if model::systemd_named(systemd, systemd.len() as int, service) {
        Some("systemd"@)
    } else if model::custom_named(custom, custom.len() as int, service) {
        Some("custom"@)
    } else {
        None
    }
}

fn drop_terminals(rows: &mut Vec<TerminalRow>, name: &str)
    ensures
        final(rows)@ == terminals_without(old(rows)@, name@),
{
    let ghost all = rows@;
    let mut kept: Vec<TerminalRow> = Vec::new();
    let mut source: Vec<TerminalRow> = Vec::new();
    std::mem::swap(&mut source, rows);
    assert(all.take(0) =~= Seq::<TerminalRow>::empty());
    for row in it: source
        invariant
            it.seq() == all,
            kept@ == terminals_without(all.take(it.index() as int), name@),
    {
        proof {
            let i = it.index() as int;
            assert(all.take(i + 1).drop_last() =~= all.take(i));
            assert(all.take(i + 1).last() == row);
        }
        if *row.name.as_str() != *name {
            kept.push(row);
        }
    }
    assert(all.take(all.len() as int) =~= all);
    *rows = kept;
}

/// The rows are the services, the terminals, the windows and one more.
pub proof fn law_terminal_rows_line_up(app: App)
    ensures
        rows_of(app).len() == app.services.keys().len() + app.terminals.terminals@.len()
            + app.terminals.windows@.len() + 1,
        rows_of(app).last() is NewSentinel,
{
}

/// A session is named after the project, or after the program where that has no name,
/// and each worktree with a slug has one of its own.
pub proof fn law_sessions_go_by_project_and_worktree(config: Config, slug: Seq<char>)
    ensures
        config.project.name is Some ==> session_of(config, Seq::empty()) == "scaffl-"@
            + config.project.name->0@,
        config.project.name is None ==> session_of(config, Seq::empty()) == "scaffl-"@ + "scaffl"@,
        slug.len() > 0 ==> session_of(config, slug) == session_of(config, Seq::empty()) + "-"@
            + slug,
{
}

/// The rows are every service by name, then every terminal of the user's, then every
/// window of the session, each in order, and last the row for a new terminal.
pub proof fn law_every_terminal_has_a_row(app: App)
    ensures
        ({
            let rows = rows_of(app);
            let s = app.services.keys();
            let t = app.terminals.terminals@;
            let w = app.terminals.windows@;
            &&& rows.len() == s.len() + t.len() + w.len() + 1
            &&& rows.take(s.len() as int) == Seq::new(s.len(), |i: int| RowModel::Service(s[i]))
            &&& rows.subrange(s.len() as int, (s.len() + t.len()) as int) == Seq::new(
                t.len(),
                |i: int| RowModel::Terminal(t[i]),
            )
            &&& rows.subrange((s.len() + t.len()) as int, rows.len() - 1) == Seq::new(
                w.len(),
                |i: int| RowModel::Window(w[i]),
            )
            &&& rows.last() is NewSentinel
        }),
{
    let rows = rows_of(app);
    let s = app.services.keys();
    let t = app.terminals.terminals@;
    let w = app.terminals.windows@;
    assert(rows.take(s.len() as int) =~= Seq::new(s.len(), |i: int| RowModel::Service(s[i])));
    assert(rows.subrange(s.len() as int, (s.len() + t.len()) as int) =~= Seq::new(
        t.len(),
        |i: int| RowModel::Terminal(t[i]),
    ));
    assert(rows.subrange((s.len() + t.len()) as int, rows.len() - 1) =~= Seq::new(
        w.len(),
        |i: int| RowModel::Window(w[i]),
    ));
}

/// The window of a terminal is created by its own command; a shell begins in the
/// project root, and a shell inside a service is not created here.
pub proof fn law_terminals_are_created_by_their_command(kind: TerminalKind, root: Seq<char>)
    ensures
        create_command(kind, root) is None <==> kind is ServiceShell,
        kind is Shell ==> create_command(kind, root) == Some(
            "cd "@ + shell::quoted(root) + " && exec ${SHELL:-/bin/sh}"@,
        ),
        kind matches TerminalKind::Custom { command } ==> create_command(kind, root) == Some(
            command@,
        ),
{
}

/// There is a shell to attach to in every service but systemd units and custom ones;
/// a unit is named as such also where a custom service has its name. The tags say the
/// same.
pub proof fn law_only_container_services_have_a_shell(config: Config, service: Seq<char>)
    ensures
        ({
            let unit = exists|i: int|
                0 <= i < config.services.systemd@.len() && (
                #[trigger] config.services.systemd@[i]).name@ == service;
            let custom = exists|i: int|
                0 <= i < config.services.custom@.len() && (
                #[trigger] config.services.custom@[i]).name@ == service;
            &&& unit ==> attach_refusal(config, service) == Some(
                "`"@ + service + "` is a systemd unit — no interactive shell to attach to"@,
            ) && badge_of(config, service) == Some("systemd"@)
            &&& !unit && custom ==> attach_refusal(config, service) == Some(
                "`"@ + service + "` is a custom service — create a custom terminal instead"@,
            ) && badge_of(config, service) == Some("custom"@)
            &&& !unit && !custom ==> attach_refusal(config, service) is None && badge_of(
                config,
                service,
            ) is None
        }),
{
}

/// Attaching to a service shows the terminals, and asks for a window of the session
/// that goes by the service and is created by a shell inside it.
pub proof fn law_services_are_attached_by_name(app: App, post: App, service: Seq<char>)
    requires
        service_attach_queued(app, post, service),
    ensures
        post.view == view::View::Terminals,
        post.pending_attach is Some,
        post.pending_attach->0.session@ == app.terminals.session_name@,
        post.pending_attach->0.window@ == "svc:"@ + service,
        post.pending_attach->0.create_with is Some,
        post.pending_attach->0.create_with->0@ == "docker compose exec -it "@ + service
            + " sh -c 'exec ${SHELL:-/bin/sh}'"@,
        post.terminals == app.terminals && post.flash == app.flash,
{
}

/// Deleting a terminal takes the terminals of its name away and leaves the others in
/// order.
pub proof fn law_only_terminals_of_that_name_are_deleted(rows: Seq<TerminalRow>, name: Seq<char>)
    ensures
        lists::selects(
            terminals_without(rows, name),
            |i: int| rows[i],
            |i: int| rows[i].name@ != name,
            rows.len(),
        ),
{
    lemma_terminals_without(rows, rows.len(), name);
    assert(rows.take(rows.len() as int) =~= rows);
}

proof fn lemma_terminals_without(rows: Seq<TerminalRow>, n: nat, name: Seq<char>)
    requires
        n <= rows.len(),
    ensures
        lists::selects(
            terminals_without(rows.take(n as int), name),
            |i: int| rows[i],
            |i: int| rows[i].name@ != name,
            n,
        ),
    decreases n,
{
    let value = |i: int| rows[i];
    let keep = |i: int| rows[i].name@ != name;
    if n == 0 {
        lists::lemma_selects_none(value, keep);
        assert(terminals_without(rows.take(0), name) =~= Seq::<TerminalRow>::empty());
    } else {
        let m = (n - 1) as nat;
        lemma_terminals_without(rows, m, name);
        assert(rows.take(n as int).drop_last() =~= rows.take(m as int));
        lists::lemma_selects_next(
            terminals_without(rows.take(m as int), name),
            value,
            keep,
            m,
        );
    }
}

/// A selection within the rows stays, and one beyond them goes to the last row.
pub proof fn law_selections_stay_within_the_rows(selected: usize, total: nat)
    requires
        total <= usize::MAX,
    ensures
        selected < total ==> clamped(selected, total) == selected,
        0 < total <= selected ==> clamped(selected, total) == total - 1,
{
}

/// The window of a row is its own; that of a service is the first one under the
/// service's name; a terminal and the row for a new one have none.
pub proof fn law_rows_have_their_window(
    row: RowModel,
    windows: Seq<TmuxWindow>,
    index: Option<u32>,
)
    requires
        row_window(row, windows, index),
    ensures
        row matches RowModel::Window(w) ==> index == Some(w.index),
        row is Terminal || row is NewSentinel ==> index is None,
        row matches RowModel::Service(name) ==> match index {
            Some(i) => exists|k: int|
                0 <= k < windows.len() && (#[trigger] windows[k]).index == i && windows[k].name@
                    == "svc:"@ + name && forall|j: int|
                    0 <= j < k ==> (#[trigger] windows[j]).name@ != "svc:"@ + name,
            None => forall|k: int|
                0 <= k < windows.len() ==> (#[trigger] windows[k]).name@ != "svc:"@ + name,
        },
{
    if let RowModel::Service(name) = row {
        if let Some(i) = index {
            let k = choose|k: int| #[trigger]
                window_at(windows, "svc:"@ + name, k) && windows[k].index == i;
            assert(windows[k].index == i);
        }
    }
}

/// What is typed goes to the focused field, and so does what is erased; the other field
/// stays.
pub proof fn law_typing_goes_to_the_focused_field(form: TerminalFormModel, c: char)
    ensures
        ({
            let typed = form.typed(c);
            let erased = form.erased();
            let (n, k) = (form.name_input, form.command_input);
            &&& typed.focus == form.focus && erased.focus == form.focus
            &&& typed.error is None && erased.error is None
            &&& form.focus == NewTerminalField::Name ==> typed.name_input == n.push(c)
                && typed.command_input == k && erased.command_input == k && erased.name_input
                == n.take(n.len() - erased_by(n))
            &&& form.focus == NewTerminalField::Command ==> typed.command_input == k.push(c)
                && typed.name_input == n && erased.name_input == n && erased.command_input
                == k.take(k.len() - erased_by(k))
        }),
{
    let (n, k) = (form.name_input, form.command_input);
    assert(n.take(n.len() as int) =~= n && k.take(k.len() as int) =~= k);
    assert(n.len() > 0 ==> n.take(n.len() - 1) =~= n.drop_last());
    assert(k.len() > 0 ==> k.take(k.len() - 1) =~= k.drop_last());
}

/// How much erasing takes off a text.
pub open spec fn erased_by(s: Seq<char>) -> int {
    if s.len() == 0 {
        0
    } else {
        1
    }
}

/// A name is taken where a terminal has it.
pub proof fn law_names_of_terminals_are_taken(rows: Seq<TerminalRow>, i: int, name: Seq<char>)
    requires
        0 <= i < rows.len(),
    ensures
        terminal_named(rows, rows.len() as int, rows[i].name@),
        (forall|k: int| 0 <= k < rows.len() ==> (#[trigger] rows[k]).name@ != name)
            ==> !terminal_named(rows, rows.len() as int, name),
{
    assert(rows[i].name@ == rows[i].name@);
}

/// A project starts with one shell and nothing known of tmux.
pub proof fn law_projects_start_with_a_shell(state: TerminalsState, config: Config)
    requires
        state.is_default_for(config),
    ensures
        state.terminals@.len() == 1,
        state.terminals@[0].name@ == "shell"@ && state.terminals@[0].kind is Shell,
        state.session_name@ == session_of(config, Seq::empty()),
        state.tmux_available is None && state.windows@.len() == 0 && state.creating is None,
        state.selected == 0,
{
    reveal_strlit("");
    assert(""@ =~= Seq::empty());
}

/// The model of a window, of a form and of a row has what they hold.
pub proof fn law_windows_forms_and_rows_say_their_fields(w: TmuxWindow, f: NewTerminalForm, r: TerminalsRow)
    ensures
        w.deep_view().index == w.index && w.deep_view().name == w.name@,
        w.deep_view().cwd == w.cwd.deep_view(),
        f@.name_input == f.name_input@ && f@.command_input == f.command_input@,
        f@.focus == f.focus && f@.error == f.error.deep_view(),
        r matches TerminalsRow::Service(name) ==> r.deep_view() == RowModel::Service(name@),
        r matches TerminalsRow::Terminal(t) ==> r.deep_view() == RowModel::Terminal(t),
        r matches TerminalsRow::Window(x) ==> r.deep_view() == RowModel::Window(x),
        r is NewSentinel <==> r.deep_view() is NewSentinel,
{
}

} // verus!
