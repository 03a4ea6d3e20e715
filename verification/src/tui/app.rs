//! The dashboard's state and the operations on it.
//!
//! Paths are text. Processes, file watchers and the terminal live in the event
//! loop; the state here holds what the rules and the renderer read.
use crate::config::model::{Backend, Config, Recipe, UiPane};
use crate::config::scripts::ScriptCommand;
use crate::shell;
use crate::shell::split_words;
use crate::text;
use crate::text::{concat, concat3};
use crate::textmap::TextMap;
use crate::tui::diff::DiffState;
use crate::tui::palette;
use crate::tui::palette::Palette;
use crate::tui::runner::{CapturedLine, RunOutcome, RunState};
use crate::tui::services::{ServicePane, TailExit};
use crate::tui::terminals;
use crate::tui::terminals::{session_for, AttachRequest, KillRequest, TerminalsState};
use crate::tui::view;

use crate::tui::watchers::{WatcherInput, WatcherPane};
use crate::tui::worktrees::WorktreeSwitcher;
use std::sync::Arc;
use crate::lists;
use vstd::prelude::*;

verus! {

/// What a sidebar row stands for.
#[derive(Debug, Clone, Copy, PartialEq, Eq, PartialOrd, Ord, Structural)]
pub enum ItemKind {
    /// The container backend itself, home of lifecycle output.
    Container,
    Service,
    Watcher,
    Recipe,
    Script,
}

/// One sidebar row.
#[derive(Debug, PartialEq, Eq)]
pub struct Item {
    pub name: String,
    pub kind: ItemKind,
}

/// What an [`Item`] says.
pub ghost struct ItemModel {
    pub name: Seq<char>,
    pub kind: ItemKind,
}

impl DeepView for Item {
    type V = ItemModel;

    open spec fn deep_view(&self) -> ItemModel {
        ItemModel { name: self.name@, kind: self.kind }
    }
}

/// Why a launch was refused.
#[derive(Debug, PartialEq, Eq)]
pub enum LaunchRejection {
    NoExecutor,
    AlreadyRunning,
    NotRunnable(String),
}

/// What a [`LaunchRejection`] says.
pub ghost enum Refusal {
    NoExecutor,
    AlreadyRunning,
    NotRunnable(Seq<char>),
}

impl View for LaunchRejection {
    type V = Refusal;

    open spec fn view(&self) -> Refusal {
        match self {
            LaunchRejection::NoExecutor => Refusal::NoExecutor,
            LaunchRejection::AlreadyRunning => Refusal::AlreadyRunning,
            LaunchRejection::NotRunnable(msg) => Refusal::NotRunnable(msg@),
        }
    }
}

/// A launch for the event loop to carry out.
#[derive(Debug, PartialEq, Eq)]
pub struct Launch {
    pub kind: ItemKind,
    pub name: String,
    pub args: Vec<String>,
}

/// How keys are routed.
#[derive(Debug, Clone, Copy, PartialEq, Eq, Structural)]
pub enum Mode {
    Normal,
    Palette,
    /// A confirmation is open.
    Confirm,
    /// An arguments prompt is open.
    ArgsPrompt,
    /// The worktree switcher is open.
    WorktreeSwitcher,
}

/// The run of a sidebar row, identified by the row's kind and name.
#[derive(Debug, PartialEq, Eq)]
pub struct RunEntry {
    pub kind: ItemKind,
    pub name: String,
    pub run: RunState,
}

/// An open question.
#[derive(Debug, PartialEq, Eq)]
pub struct ConfirmDialog {
    pub title: String,
    pub body: String,
    /// Whether Yes is focused.
    pub yes_focused: bool,
    pub action: ConfirmAction,
}

#[derive(Debug, PartialEq, Eq)]
pub enum ConfirmAction {
    /// Abort the run of that row and start it again.
    KillAndRestart { kind: ItemKind, name: String },
}

/// An open prompt for the arguments of a row.
#[derive(Debug, PartialEq, Eq)]
pub struct ArgsPrompt {
    pub item_name: String,
    pub kind: ItemKind,
    pub input: String,
}

/// The outcome of starting a row over: whether a run has to be aborted, and what
/// became of the launch.
#[derive(Debug, PartialEq, Eq)]
pub struct Relaunch {
    pub aborted: bool,
    pub outcome: Result<Launch, LaunchRejection>,
}

/// The dashboard's state.
#[derive(Debug, PartialEq, Eq)]
pub struct App {
    pub config: Arc<Config>,
    pub items: Vec<Item>,
    pub selected: usize,
    pub quit: bool,
    /// Whether runs can be started.
    pub has_executor: bool,
    /// Whether services can be acted on.
    pub has_backend: bool,
    /// Runs of recipes and scripts. An ended run stays until it is replaced.
    pub runs: Vec<RunEntry>,
    /// The most recent lifecycle action.
    pub lifecycle_run: Option<RunState>,
    pub services: TextMap<ServicePane>,
    pub watchers: TextMap<WatcherPane>,
    /// The banner shown until the next key.
    pub flash: Option<String>,
    pub mode: Mode,
    pub palette: Option<Palette>,
    pub confirm: Option<ConfirmDialog>,
    pub args_prompt: Option<ArgsPrompt>,
    pub switcher: Option<WorktreeSwitcher>,
    /// The worktree to reload into.
    pub pending_switch: Option<String>,
    pub project_root: String,
    pub view: view::View,
    pub terminals: TerminalsState,
    /// The window to attach to.
    pub pending_attach: Option<AttachRequest>,
    /// The window to close.
    pub pending_kill: Option<KillRequest>,
    /// Whether to hand the terminal to lazygit.
    pub pending_lazygit: bool,
    pub diff: DiffState,
}

// ---------------------------------------------------------------------------
// The item list
// ---------------------------------------------------------------------------
/// The items of that kind with the given names.
pub open spec fn as_items(names: Seq<Seq<char>>, kind: ItemKind) -> Seq<ItemModel> {
    names.map_values(|n: Seq<char>| ItemModel { name: n, kind })
}

/// The name of the container row; none without a container runtime.
pub open spec fn container_label(backend: Backend) -> Option<Seq<char>> {
    match backend {
        Backend::NoRuntime => None,
        Backend::Compose => Some("compose"@),
        Backend::Docker => Some("docker"@),
        Backend::Podman => Some("podman"@),
    }
}

/// The services that the first `n` panes declare, first mention first, as far as
/// `known` has them.
pub open spec fn declared_services(
    panes: Seq<UiPane>,
    known: Set<Seq<char>>,
    n: nat,
) -> Seq<Seq<char>>
    decreases n,
{
    if n == 0 {
        seq![]
    } else {
        let rest = declared_services(panes, known, (n - 1) as nat);
        match panes[n - 1] {
            UiPane::Service { service, .. } => if known.contains(service@) && !rest.contains(
                service@,
            ) {
                rest.push(service@)
            } else {
                rest
            },
            _ => rest,
        }
    }
}

/// The first `n` of `keys` without those in `declared`.
pub open spec fn undeclared_services(
    keys: Seq<Seq<char>>,
    declared: Seq<Seq<char>>,
    n: nat,
) -> Seq<Seq<char>>
    decreases n,
{
    if n == 0 {
        seq![]
    } else {
        let rest = undeclared_services(keys, declared, (n - 1) as nat);
        if declared.contains(keys[n - 1]) {
            rest
        } else {
            rest.push(keys[n - 1])
        }
    }
}

/// The sidebar: the container row, declared services in declaration order, other
/// services, watchers, recipes and scripts, the latter four in dictionary order.
pub open spec fn items_of(
    config: Config,
    services: Seq<Seq<char>>,
    watchers: Seq<Seq<char>>,
) -> Seq<ItemModel> {
    let panes = config.ui.panes@;
    let declared = declared_services(panes, services.to_set(), panes.len());
    let container = match container_label(config.runtime.backend) {
        Some(name) => seq![ItemModel { name, kind: ItemKind::Container }],
        None => seq![],
    };
    container + as_items(declared, ItemKind::Service) + as_items(
        undeclared_services(services, declared, services.len()),
        ItemKind::Service,
    ) + as_items(watchers, ItemKind::Watcher) + as_items(config.commands.keys(), ItemKind::Recipe)
        + as_items(config.scripts.keys(), ItemKind::Script)
}

/// The name of the container row.
fn container_row_label(config: &Config) -> (res: Option<&'static str>)
    ensures
        res.deep_view() == container_label(config.runtime.backend),
{
    match config.runtime.backend {
        Backend::NoRuntime => None,
        Backend::Compose => Some("compose"),
        Backend::Docker => Some("docker"),
        Backend::Podman => Some("podman"),
    }
}

fn push_items(items: &mut Vec<Item>, names: &Vec<String>, kind: ItemKind)
    ensures
        final(items).deep_view() == old(items).deep_view() + as_items(names.deep_view(), kind),
{
    let ghost before = items.deep_view();
    let ghost added = as_items(names.deep_view(), kind);
    let mut i: usize = 0;
    while i < names.len()
        invariant
            i <= names@.len(),
            added == as_items(names.deep_view(), kind),
            items.deep_view() == before + added.take(i as int),
        decreases names@.len() - i,
    {
        let ghost now = items.deep_view();
        items.push(Item { name: names[i].clone(), kind });
        assert(added[i as int] == (ItemModel { name: names@[i as int]@, kind }));
        assert(items.deep_view() =~= now.push(added[i as int]));
        assert(added.take(i + 1) =~= added.take(i as int).push(added[i as int]));
        assert(items.deep_view() =~= before + added.take(i + 1));
        i += 1;
    }
    assert(added.take(i as int) =~= added);
}

fn declared_names<V>(config: &Config, services: &TextMap<V>) -> (res: Vec<String>)
    ensures
        res.deep_view() == declared_services(
            config.ui.panes@,
            services.keys().to_set(),
            config.ui.panes@.len(),
        ),
{
    let ghost panes = config.ui.panes@;
    let ghost known = services.keys().to_set();
    let _ = services.len();
    let mut out: Vec<String> = Vec::new();
    let mut i: usize = 0;
    assert(out.deep_view() =~= Seq::<Seq<char>>::empty());
    while i < config.ui.panes.len()
        invariant
            i <= config.ui.panes@.len(),
            panes == config.ui.panes@,
            known == services.keys().to_set(),
            forall|k: Seq<char>| #![auto]
                services@.contains_key(k) <==> services.keys().contains(k),
            out.deep_view() == declared_services(panes, known, i as nat),
        decreases config.ui.panes@.len() - i,
    {
        if let UiPane::Service { service, .. } = &config.ui.panes[i] {
            if services.contains_key(service.as_str()) && !text::is_listed(&out, service.as_str()) {
                let ghost before = out.deep_view();
                out.push(service.clone());
                assert(out.deep_view() =~= before.push(service@));
            }
        }
        i += 1;
    }
    out
}

fn undeclared_names<V>(services: &TextMap<V>, declared: &Vec<String>) -> (res: Vec<String>)
    ensures
        res.deep_view() == undeclared_services(
            services.keys(),
            declared.deep_view(),
            services.keys().len(),
        ),
{
    let mut out: Vec<String> = Vec::new();
    let mut i: usize = 0;
    assert(out.deep_view() =~= Seq::<Seq<char>>::empty());
    while i < services.len()
        invariant
            i <= services.keys().len(),
            out.deep_view() == undeclared_services(
                services.keys(),
                declared.deep_view(),
                i as nat,
            ),
        decreases services.keys().len() - i,
    {
        let name = services.key_at(i);
        if !text::is_listed(declared, name.as_str()) {
            let ghost before = out.deep_view();
            out.push(name.clone());
            assert(out.deep_view() =~= before.push(name@));
        }
        i += 1;
    }
    out
}

/// The keys of a map, in dictionary order.
pub fn key_list<V>(map: &TextMap<V>) -> (res: Vec<String>)
    ensures
        res.deep_view() == map.keys(),
{
    let mut out: Vec<String> = Vec::new();
    let mut i: usize = 0;
    while i < map.len()
        invariant
            i <= map.keys().len(),
            out.deep_view() == map.keys().take(i as int),
        decreases map.keys().len() - i,
    {
        let ghost before = out.deep_view();
        out.push(map.key_at(i).clone());
        assert(out.deep_view() =~= before.push(map.keys()[i as int]));
        assert(map.keys().take(i + 1) =~= before.push(map.keys()[i as int]));
        i += 1;
    }
    assert(map.keys().take(i as int) =~= map.keys());
    out
}

/// The sidebar for the given services and watchers.
pub fn build_items_from(
    config: &Config,
    services: &TextMap<ServicePane>,
    watchers: &TextMap<WatcherPane>,
) -> (res: Vec<Item>)
    ensures
        res.deep_view() == items_of(*config, services.keys(), watchers.keys()),
{
    let mut items: Vec<Item> = Vec::new();
    let label = container_row_label(config);
    if let Some(name) = label {
        items.push(Item { name: name.to_owned(), kind: ItemKind::Container });
    }
    let ghost container = match container_label(config.runtime.backend) {
        Some(name) => seq![ItemModel { name, kind: ItemKind::Container }],
        None => seq![],
    };
    assert(items.deep_view() =~= container);
    let declared = declared_names(config, services);
    push_items(&mut items, &declared, ItemKind::Service);
    let others = undeclared_names(services, &declared);
    push_items(&mut items, &others, ItemKind::Service);
    let watcher_names = key_list(watchers);
    push_items(&mut items, &watcher_names, ItemKind::Watcher);
    let recipes = key_list(&config.commands);
    push_items(&mut items, &recipes, ItemKind::Recipe);
    let scripts = key_list(&config.scripts);
    push_items(&mut items, &scripts, ItemKind::Script);
    items
}

/// The names of the services that the first `n` panes declare.
pub open spec fn pane_services(panes: Seq<UiPane>, n: nat) -> Set<Seq<char>>
    decreases n,
{
    if n == 0 {
        Set::empty()
    } else {
        let rest = pane_services(panes, (n - 1) as nat);
        match panes[n - 1] {
            UiPane::Service { service, .. } => rest.insert(service@),
            _ => rest,
        }
    }
}

/// One fresh pane for every service that the configuration declares.
pub fn collect_service_panes(config: &Config) -> (res: TextMap<ServicePane>)
    ensures
        res@.dom() == pane_services(config.ui.panes@, config.ui.panes@.len()),
        forall|k: Seq<char>| #[trigger]
            res@.contains_key(k) ==> res@[k].name@ == k && res@[k].is_new(res@[k].name),
{
    let ghost panes = config.ui.panes@;
    let mut out: TextMap<ServicePane> = TextMap::new();
    let mut i: usize = 0;
    assert(out@.dom() =~= pane_services(panes, 0));
    while i < config.ui.panes.len()
        invariant
            i <= config.ui.panes@.len(),
            panes == config.ui.panes@,
            out@.dom() == pane_services(panes, i as nat),
            forall|k: Seq<char>| #[trigger]
                out@.contains_key(k) ==> out@[k].name@ == k && out@[k].is_new(out@[k].name),
        decreases config.ui.panes@.len() - i,
    {
        if let UiPane::Service { service, .. } = &config.ui.panes[i] {
            if !out.contains_key(service.as_str()) {
                let pane = ServicePane::new(service.clone());
                out.insert(service.clone(), pane);
            }
            assert(out@.dom() =~= pane_services(panes, (i + 1) as nat));
        }
        i += 1;
    }
    out
}

/// The name of the watcher pane for `base`, declared at place `idx`.
pub open spec fn watcher_name(base: Seq<char>, idx: nat, taken: bool) -> Seq<char> {
    if taken {
        "watch:"@ + base + ":"@ + text::digits(idx)
    } else {
        "watch:"@ + base
    }
}

/// A name for the watcher pane of `base`: `watch:<base>`, or with the pane's place
/// behind it when that name is taken.
pub fn unique_watcher_name(
    base: &str,
    idx: usize,
    existing: &TextMap<WatcherPane>,
) -> (res: String)
    ensures
        res@ == watcher_name(base@, idx as nat, existing@.contains_key("watch:"@ + base@)),
{
    let primary = concat("watch:", base);
    if !existing.contains_key(primary.as_str()) {
        return primary;
    }
    let n = text::decimal(idx as u64);
    let mut out = concat3("watch:", base, ":");
    out.append(n.as_str());
    out
}

// ---------------------------------------------------------------------------
// Runs
// ---------------------------------------------------------------------------
/// The run of the row of that kind and name, if it has one.
pub open spec fn run_of(runs: Seq<RunEntry>, kind: ItemKind, name: Seq<char>) -> Option<RunState>
    decreases runs.len(),
{
    if runs.len() == 0 {
        None
    } else if runs.last().kind == kind && runs.last().name@ == name {
        Some(runs.last().run)
    } else {
        run_of(runs.drop_last(), kind, name)
    }
}

/// The runs without that of the given row.
pub open spec fn runs_without(runs: Seq<RunEntry>, kind: ItemKind, name: Seq<char>) -> Seq<RunEntry>
    decreases runs.len(),
{
    if runs.len() == 0 {
        seq![]
    } else {
        let rest = runs_without(runs.drop_last(), kind, name);
        if runs.last().kind == kind && runs.last().name@ == name {
            rest
        } else {
            rest.push(runs.last())
        }
    }
}

/// Taking a row's run away leaves every other row's run.
pub proof fn lemma_runs_without(
    runs: Seq<RunEntry>,
    kind: ItemKind,
    name: Seq<char>,
    kind2: ItemKind,
    name2: Seq<char>,
)
    ensures
        run_of(runs_without(runs, kind, name), kind2, name2) == if kind == kind2 && name == name2 {
            None
        } else {
            run_of(runs, kind2, name2)
        },
    decreases runs.len(),
{
    if runs.len() > 0 {
        lemma_runs_without(runs.drop_last(), kind, name, kind2, name2);
        let rest = runs_without(runs.drop_last(), kind, name);
        assert(rest.push(runs.last()).drop_last() =~= rest);
    }
}

/// Where the run of that row stands.
pub open spec fn run_at(runs: Seq<RunEntry>, kind: ItemKind, name: Seq<char>, i: int) -> bool {
    &&& 0 <= i < runs.len()
    &&& runs[i].kind == kind && runs[i].name@ == name
    &&& forall|k: int|
        i < k < runs.len() ==> !((#[trigger] runs[k]).kind == kind && runs[k].name@ == name)
}

/// Another state of a row's run leaves every other row's run.
proof fn lemma_run_replaced(
    runs: Seq<RunEntry>,
    i: int,
    entry: RunEntry,
    kind: ItemKind,
    name: Seq<char>,
)
    requires
        run_at(runs, entry.kind, entry.name@, i),
    ensures
        run_of(runs, entry.kind, entry.name@) == Some(runs[i].run),
        run_of(runs.update(i, entry), kind, name) == if kind == entry.kind && name == entry.name@ {
            Some(entry.run)
        } else {
            run_of(runs, kind, name)
        },
    decreases runs.len(),
{
    let last = runs.len() - 1;
    let front = runs.drop_last();
    let after = runs.update(i, entry);
    if i == last {
        assert(after.drop_last() =~= front);
    } else {
        assert(after.drop_last() =~= front.update(i, entry));
        assert(runs[last] == after[last]);
        assert(front[i] == runs[i]);
        assert forall|k: int| i < k < front.len() implies !((#[trigger] front[k]).kind == entry.kind
            && front[k].name@ == entry.name@) by {
            assert(front[k] == runs[k]);
        }
        lemma_run_replaced(front, i, entry, kind, name);
    }
}

/// A row without a run has none in the list.
proof fn lemma_no_run(runs: Seq<RunEntry>, kind: ItemKind, name: Seq<char>)
    requires
        forall|k: int|
            0 <= k < runs.len() ==> !((#[trigger] runs[k]).kind == kind && runs[k].name@ == name),
    ensures
        run_of(runs, kind, name) is None,
    decreases runs.len(),
{
    if runs.len() > 0 {
        let front = runs.drop_last();
        assert(!(runs[runs.len() - 1].kind == kind && runs[runs.len() - 1].name@ == name));
        assert forall|k: int| 0 <= k < front.len() implies !((#[trigger] front[k]).kind == kind
            && front[k].name@ == name) by {
            assert(front[k] == runs[k]);
        }
        lemma_no_run(front, kind, name);
    }
}

fn find_run(runs: &Vec<RunEntry>, kind: ItemKind, name: &str) -> (res: Option<usize>)
    ensures
        match res {
            Some(i) => run_at(runs@, kind, name@, i as int),
            None => run_of(runs@, kind, name@) is None,
        },
{
    let mut i: usize = runs.len();
    while i > 0
        invariant
            i <= runs@.len(),
            forall|k: int|
                i <= k < runs@.len() ==> !((#[trigger] runs@[k]).kind == kind && runs@[k].name@
                    == name@),
        decreases i,
    {
        i -= 1;
        if runs[i].kind == kind && *runs[i].name.as_str() == *name {
            return Some(i);
        }
    }
    proof {
        lemma_no_run(runs@, kind, name@);
    }
    None
}

/// Takes the run of a row out of the list.
fn drop_run(runs: &mut Vec<RunEntry>, kind: ItemKind, name: &str)
    ensures
        final(runs)@ == runs_without(old(runs)@, kind, name@),
{
    let ghost all = runs@;
    let mut kept: Vec<RunEntry> = Vec::new();
    let mut source: Vec<RunEntry> = Vec::new();
    std::mem::swap(&mut source, runs);
    assert(all.take(0) =~= Seq::<RunEntry>::empty());
    for entry in it: source
        invariant
            it.seq() == all,
            kept@ == runs_without(all.take(it.index() as int), kind, name@),
    {
        proof {
            let i = it.index() as int;
            assert(all.take(i + 1).drop_last() =~= all.take(i));
            assert(all.take(i + 1).last() == entry);
        }
        if !(entry.kind == kind && *entry.name.as_str() == *name) {
            kept.push(entry);
        }
    }
    assert(all.take(all.len() as int) =~= all);
    *runs = kept;
}

/// The first item of that kind and name.
pub open spec fn item_position(items: Seq<Item>, kind: ItemKind, name: Seq<char>, i: int) -> bool {
    &&& 0 <= i < items.len()
    &&& items[i].kind == kind && items[i].name@ == name
    &&& forall|k: int|
        0 <= k < i ==> !((#[trigger] items[k]).kind == kind && items[k].name@ == name)
}

/// The place of the first item of that kind and name.
pub fn find_item(items: &Vec<Item>, kind: ItemKind, name: &str) -> (res: Option<usize>)
    ensures
        match res {
            Some(i) => item_position(items@, kind, name@, i as int),
            None => forall|k: int|
                0 <= k < items@.len() ==> !((#[trigger] items@[k]).kind == kind && items@[k].name@
                    == name@),
        },
{
    let mut i: usize = 0;
    while i < items.len()
        invariant
            i <= items@.len(),
            forall|k: int|
                0 <= k < i ==> !((#[trigger] items@[k]).kind == kind && items@[k].name@ == name@),
        decreases items@.len() - i,
    {
        if items[i].kind == kind && *items[i].name.as_str() == *name {
            return Some(i);
        }
        i += 1;
    }
    None
}

/// The place of the first container row.
fn find_container(items: &Vec<Item>) -> (res: Option<usize>)
    ensures
        match res {
            Some(i) => container_at(items@, i as int),
            None => forall|k: int|
                0 <= k < items@.len() ==> (#[trigger] items@[k]).kind != ItemKind::Container,
        },
{
    let mut i: usize = 0;
    while i < items.len()
        invariant
            i <= items@.len(),
            forall|k: int| 0 <= k < i ==> (#[trigger] items@[k]).kind != ItemKind::Container,
        decreases items@.len() - i,
    {
        if items[i].kind == ItemKind::Container {
            return Some(i);
        }
        i += 1;
    }
    None
}

/// The first container row stands at `i`.
pub open spec fn container_at(items: Seq<Item>, i: int) -> bool {
    &&& 0 <= i < items.len()
    &&& items[i].kind == ItemKind::Container
    &&& forall|k: int| 0 <= k < i ==> (#[trigger] items[k]).kind != ItemKind::Container
}

/// Lifecycle actions on services.
#[derive(Debug, Clone, Copy, PartialEq, Eq, Structural)]
pub enum ServiceAction {
    Up,
    Down,
    Stop,
    Restart,
}

impl ServiceAction {
    /// The backend's word for the action.
    pub open spec fn word_text(self) -> Seq<char> {
        match self {
            ServiceAction::Up => "up"@,
            ServiceAction::Down => "down"@,
            ServiceAction::Stop => "stop"@,
            ServiceAction::Restart => "restart"@,
        }
    }

    /// The backend's word for the action.
    pub fn word(self) -> (res: &'static str)
        ensures
            res@ == self.word_text(),
    {
        match self {
            ServiceAction::Up => "up",
            ServiceAction::Down => "down",
            ServiceAction::Stop => "stop",
            ServiceAction::Restart => "restart",
        }
    }
}

/// The title of a lifecycle run.
pub open spec fn action_label(action: ServiceAction, services: Seq<Seq<char>>) -> Seq<char> {
    if services.len() == 0 {
        "compose "@ + action.word_text()
    } else {
        "compose "@ + action.word_text() + " "@ + text::joined(services, " "@)
    }
}

impl App {
    /// The sidebar is that of the configuration, the services and the watchers,
    /// and the selection points into it.
    pub open spec fn selection_valid(&self) -> bool {
        self.selected < self.items@.len() || (self.items@.len() == 0 && self.selected == 0)
    }

    /// An open palette is consistent and offers rows that exist.
    pub open spec fn palette_valid(&self) -> bool {
        match self.palette {
            Some(p) => p.wf() && palette::candidates_below(
                p.candidates@,
                self.items@.len() as int,
            ),
            None => true,
        }
    }

    /// The selected row.
    pub open spec fn selection(&self) -> Option<Item> {
        if self.selected < self.items@.len() {
            Some(self.items@[self.selected as int])
        } else {
            None
        }
    }

    /// The dashboard for `config`, with nothing running.
    pub fn new(config: Arc<Config>) -> (res: Self)
        ensures
            res.config == config,
            res.services@.dom() == pane_services(config.ui.panes@, config.ui.panes@.len()),
            forall|k: Seq<char>| #[trigger]
                res.services@.contains_key(k) ==> res.services@[k].name@ == k
                    && res.services@[k].is_new(res.services@[k].name),
            res.watchers@ == Map::<Seq<char>, WatcherPane>::empty(),
            res.items.deep_view() == items_of(*config, res.services.keys(), seq![]),
            res.selected == 0,
            res.selection_valid(),
            res.palette_valid(),
            !res.quit && !res.has_executor && !res.has_backend,
            res.runs@.len() == 0,
            res.lifecycle_run is None && res.flash is None && res.palette is None && res.confirm
                is None && res.args_prompt is None && res.switcher is None && res.pending_switch
                is None && res.pending_attach is None && res.pending_kill is None,
            !res.pending_lazygit,
            res.mode == Mode::Normal,
            res.project_root@ == "."@,
            res.view == view::View::ControlCenter,
            res.terminals.is_default_for(*config),
            res.diff.is_empty(),
    {
        let services = collect_service_panes(&config);
        let watchers: TextMap<WatcherPane> = TextMap::new();
        let items = build_items_from(&config, &services, &watchers);
        let terminals = TerminalsState::default_for(&config);
        App {
            config,
            items,
            selected: 0,
            quit: false,
            has_executor: false,
            has_backend: false,
            runs: Vec::new(),
            lifecycle_run: None,
            services,
            watchers,
            flash: None,
            mode: Mode::Normal,
            palette: None,
            confirm: None,
            args_prompt: None,
            switcher: None,
            pending_switch: None,
            project_root: ".".to_owned(),
            view: view::View::ControlCenter,
            terminals,
            pending_attach: None,
            pending_kill: None,
            pending_lazygit: false,
            diff: DiffState::empty(),
        }
    }

    /// The active view.
    pub fn view(&self) -> (res: view::View)
        ensures
            res == self.view,
    {
        self.view
    }

    /// Shows `view`.
    pub fn switch_view(&mut self, view: view::View)
        ensures
            *final(self) == (App { view, ..*old(self) }),
    {
        self.view = view;
    }

    /// The dashboard bound to a project root.
    pub fn with_project_root(self, project_root: &str) -> (res: Self)
        ensures
            res.project_root@ == project_root@,
            res == (App { project_root: res.project_root, ..self }),
    {
        let mut app = self;
        app.project_root = project_root.to_owned();
        app
    }

    /// The state with the terminals of the worktree of that slug: each worktree has
    /// a tmux session of its own.
    pub fn with_worktree(self, slug: &str) -> (res: Self)
        ensures
            res == (App {
                terminals: TerminalsState {
                    session_name: res.terminals.session_name,
                    ..self.terminals
                },
                ..self
            }),
            res.terminals.session_name@ == terminals::session_of(*self.config, slug@),
    {
        let mut app = self;
        app.terminals.session_name = session_for(&app.config, slug);
        app
    }

    /// The project root.
    pub fn project_root(&self) -> (res: &str)
        ensures
            res@ == self.project_root@,
    {
        self.project_root.as_str()
    }

    /// The dashboard with a way to start runs.
    pub fn with_executor(self) -> (res: Self)
        ensures
            res == (App { has_executor: true, ..self }),
    {
        let mut app = self;
        app.has_executor = true;
        app
    }

    /// The dashboard with a container backend.
    pub fn with_backend(self) -> (res: Self)
        ensures
            res == (App { has_backend: true, ..self }),
    {
        let mut app = self;
        app.has_backend = true;
        app
    }

    /// The service panes by name.
    pub fn services(&self) -> (res: &TextMap<ServicePane>)
        ensures
            *res == self.services,
    {
        &self.services
    }

    /// The service panes by name, to be changed.
    pub fn services_mut(&mut self) -> (res: &mut TextMap<ServicePane>)
        ensures
            *res == old(self).services,
            *final(self) == (App { services: *final(res), ..*old(self) }),
    {
        &mut self.services
    }

    /// The watcher panes by name.
    pub fn watchers(&self) -> (res: &TextMap<WatcherPane>)
        ensures
            *res == self.watchers,
    {
        &self.watchers
    }

    /// The sidebar rows.
    pub fn items(&self) -> (res: &[Item])
        ensures
            res@ == self.items@,
    {
        self.items.as_slice()
    }

    /// The place of the selected row.
    pub fn selected_index(&self) -> (res: usize)
        ensures
            res == self.selected,
    {
        self.selected
    }

    /// The selected row.
    pub fn selected_item(&self) -> (res: Option<&Item>)
        ensures
            res is Some == self.selection() is Some,
            res is Some ==> *res->0 == self.selection()->0,
    {
        if self.selected < self.items.len() {
            Some(&self.items[self.selected])
        } else {
            None
        }
    }

    /// The pane of the selected service row.
    pub fn selected_service(&self) -> (res: Option<&ServicePane>)
        ensures
            res is Some == (self.selection() is Some && self.selection()->0.kind
                == ItemKind::Service && self.services@.contains_key(self.selection()->0.name@)),
            res is Some ==> *res->0 == self.services@[self.selection()->0.name@],
    {
        match self.selected_item() {
            Some(item) => if item.kind == ItemKind::Service {
                self.services.get(item.name.as_str())
            } else {
                None
            },
            None => None,
        }
    }

    /// The pane of the selected watcher row.
    pub fn selected_watcher(&self) -> (res: Option<&WatcherPane>)
        ensures
            res is Some == (self.selection() is Some && self.selection()->0.kind
                == ItemKind::Watcher && self.watchers@.contains_key(self.selection()->0.name@)),
            res is Some ==> *res->0 == self.watchers@[self.selection()->0.name@],
    {
        match self.selected_item() {
            Some(item) => if item.kind == ItemKind::Watcher {
                self.watchers.get(item.name.as_str())
            } else {
                None
            },
            None => None,
        }
    }

    /// The recipe of the selected row.
    pub fn selected_recipe(&self) -> (res: Option<&Recipe>)
        ensures
            res is Some == (self.selection() is Some && self.selection()->0.kind
                == ItemKind::Recipe && self.config.commands@.contains_key(
                self.selection()->0.name@,
            )),
            res is Some ==> *res->0 == self.config.commands@[self.selection()->0.name@],
    {
        match self.selected_item() {
            Some(item) => if item.kind == ItemKind::Recipe {
                self.config.commands.get(item.name.as_str())
            } else {
                None
            },
            None => None,
        }
    }

    /// The script of the selected row.
    pub fn selected_script(&self) -> (res: Option<&ScriptCommand>)
        ensures
            res is Some == (self.selection() is Some && self.selection()->0.kind
                == ItemKind::Script && self.config.scripts@.contains_key(
                self.selection()->0.name@,
            )),
            res is Some ==> *res->0 == self.config.scripts@[self.selection()->0.name@],
    {
        match self.selected_item() {
            Some(item) => if item.kind == ItemKind::Script {
                self.config.scripts.get(item.name.as_str())
            } else {
                None
            },
            None => None,
        }
    }

    /// The configuration.
    pub fn config(&self) -> (res: &Config)
        ensures
            *res == *self.config,
    {
        &self.config
    }

    /// Whether the session ends.
    pub fn should_quit(&self) -> (res: bool)
        ensures
            res == self.quit,
    {
        self.quit
    }

    /// Ends the session.
    pub fn quit(&mut self)
        ensures
            *final(self) == (App { quit: true, ..*old(self) }),
    {
        self.quit = true;
    }

    /// Selects the next row; the last one stays selected.
    pub fn select_next(&mut self)
        requires
            old(self).selection_valid(),
        ensures
            final(self).selection_valid(),
            *final(self) == (App { selected: final(self).selected, ..*old(self) }),
            final(self).selected == if old(self).selected + 1 < old(self).items@.len() {
                old(self).selected + 1
            } else {
                old(self).selected as int
            },
    {
        if self.items.len() > 0 && self.selected < self.items.len() - 1 {
            self.selected = self.selected + 1;
        }
    }

    /// Selects the previous row; the first one stays selected.
    pub fn select_prev(&mut self)
        requires
            old(self).selection_valid(),
        ensures
            final(self).selection_valid(),
            *final(self) == (App { selected: final(self).selected, ..*old(self) }),
            final(self).selected == if old(self).selected == 0 {
                0
            } else {
                old(self).selected - 1
            },
    {
        if self.selected > 0 {
            self.selected = self.selected - 1;
        }
    }

    /// Selects the first row.
    pub fn select_first(&mut self)
        ensures
            final(self).selection_valid(),
            *final(self) == (App { selected: 0, ..*old(self) }),
    {
        self.selected = 0;
    }

    /// Selects the last row.
    pub fn select_last(&mut self)
        requires
            old(self).selection_valid(),
        ensures
            final(self).selection_valid(),
            *final(self) == (App { selected: final(self).selected, ..*old(self) }),
            old(self).items@.len() > 0 ==> final(self).selected == old(self).items@.len() - 1,
    {
        if self.items.len() > 0 {
            self.selected = self.items.len() - 1;
        }
    }

    /// The run of the row of that kind and name, if it has one.
    pub fn run_for(&self, kind: ItemKind, name: &str) -> (res: Option<&RunState>)
        ensures
            res is Some == run_of(self.runs@, kind, name@) is Some,
            res is Some ==> Some(*res->0) == run_of(self.runs@, kind, name@),
    {
        let mut i: usize = self.runs.len();
        assert(self.runs@.take(i as int) =~= self.runs@);
        while i > 0
            invariant
                i <= self.runs@.len(),
                run_of(self.runs@.take(i as int), kind, name@) == run_of(self.runs@, kind, name@),
            decreases i,
        {
            proof {
                let t = self.runs@.take(i as int);
                assert(t.last() == self.runs@[i - 1]);
                assert(t.drop_last() =~= self.runs@.take(i - 1));
            }
            i -= 1;
            if self.runs[i].kind == kind && *self.runs[i].name.as_str() == *name {
                return Some(&self.runs[i].run);
            }
        }
        None
    }

    /// The run of the selected row, if it has one.
    pub open spec fn selection_run(&self) -> Option<RunState> {
        match self.selection() {
            Some(item) => run_of(self.runs@, item.kind, item.name@),
            None => None,
        }
    }

    /// Whether the selected row is running.
    pub open spec fn selection_running(&self) -> bool {
        match self.selection_run() {
            Some(run) => !run.done(),
            None => false,
        }
    }

    /// Whether a lifecycle action is running.
    pub open spec fn lifecycle_running(&self) -> bool {
        match self.lifecycle_run {
            Some(run) => !run.done(),
            None => false,
        }
    }

    /// The run of the selected row, if it has one.
    pub fn selected_run(&self) -> (res: Option<&RunState>)
        ensures
            res is Some == self.selection_run() is Some,
            res is Some ==> Some(*res->0) == self.selection_run(),
    {
        match self.selected_item() {
            Some(item) => self.run_for(item.kind, item.name.as_str()),
            None => None,
        }
    }

    /// The most recent lifecycle run.
    pub fn lifecycle_run(&self) -> (res: Option<&RunState>)
        ensures
            res is Some == self.lifecycle_run is Some,
            res is Some ==> Some(*res->0) == self.lifecycle_run,
    {
        self.lifecycle_run.as_ref()
    }

    /// Why the selected row cannot be launched; nothing when it can.
    pub open spec fn launch_refusal(&self) -> Option<Refusal> {
        match self.selection() {
            None => Some(Refusal::NotRunnable("no selection"@)),
            Some(item) => if self.selection_running() {
                Some(Refusal::AlreadyRunning)
            } else if !self.has_executor {
                Some(Refusal::NoExecutor)
            } else {
                self.kind_refusal(item)
            },
        }
    }

    /// Why a row of that kind and name cannot be launched by its nature.
    pub open spec fn kind_refusal(&self, item: Item) -> Option<Refusal> {
        match item.kind {
            ItemKind::Container => Some(
                Refusal::NotRunnable("container row shows lifecycle output; use U / D / R / S"@),
            ),
            ItemKind::Service => Some(
                Refusal::NotRunnable("service panes show logs; press enter to up the service"@),
            ),
            ItemKind::Watcher => Some(Refusal::NotRunnable("watcher panes auto-run on file change"@)),
            ItemKind::Recipe => if !self.config.commands@.contains_key(item.name@) {
                Some(Refusal::NotRunnable("recipe `"@ + item.name@ + "` vanished from config"@))
            } else if self.config.commands@[item.name@].service is Some {
                Some(
                    Refusal::NotRunnable(
                        "in-container recipes from the TUI are deferred — run from the CLI"@,
                    ),
                )
            } else {
                None
            },
            ItemKind::Script => if !self.config.scripts@.contains_key(item.name@) {
                Some(Refusal::NotRunnable("script `"@ + item.name@ + "` vanished from config"@))
            } else if self.config.scripts@[item.name@].service is Some {
                Some(Refusal::NotRunnable("in-container scripts are deferred"@))
            } else {
                None
            },
        }
    }

    /// `post` is this state after launching the selected row: the row has a fresh
    /// run, the banner is gone, everything else is as before.
    pub open spec fn launched(&self, post: App) -> bool {
        let item = self.selection()->0;
        &&& post == (App { runs: post.runs, flash: None, ..*self })
        &&& run_of(post.runs@, item.kind, item.name@) matches Some(run) && run.name@ == item.name@
            && run.buffer@.len() == 0 && !run.done()
        &&& forall|kind: ItemKind, name: Seq<char>|
            !(kind == item.kind && name == item.name@) ==> #[trigger] run_of(post.runs@, kind, name)
                == run_of(self.runs@, kind, name)
    }

    /// What `launch` is for the selected row with those arguments.
    pub open spec fn launch_matches(&self, launch: Launch, args: Seq<Seq<char>>) -> bool {
        &&& launch.kind == self.selection()->0.kind
        &&& launch.name@ == self.selection()->0.name@
        &&& launch.args.deep_view() == args
    }

    fn check_kind(&self, item: &Item) -> (res: Option<LaunchRejection>)
        ensures
            match res {
                Some(r) => self.kind_refusal(*item) == Some(r@),
                None => self.kind_refusal(*item) is None,
            },
    {
        match item.kind {
            ItemKind::Container => Some(
                LaunchRejection::NotRunnable(
                    "container row shows lifecycle output; use U / D / R / S".to_owned(),
                ),
            ),
            ItemKind::Service => Some(
                LaunchRejection::NotRunnable(
                    "service panes show logs; press enter to up the service".to_owned(),
                ),
            ),
            ItemKind::Watcher => Some(
                LaunchRejection::NotRunnable("watcher panes auto-run on file change".to_owned()),
            ),
            ItemKind::Recipe => match self.config.commands.get(item.name.as_str()) {
                None => Some(
                    LaunchRejection::NotRunnable(
                        concat3("recipe `", item.name.as_str(), "` vanished from config"),
                    ),
                ),
                Some(recipe) => if recipe.service.is_some() {
                    Some(
                        LaunchRejection::NotRunnable(
                            "in-container recipes from the TUI are deferred — run from the CLI".to_owned(),
                        ),
                    )
                } else {
                    None
                },
            },
            ItemKind::Script => match self.config.scripts.get(item.name.as_str()) {
                None => Some(
                    LaunchRejection::NotRunnable(
                        concat3("script `", item.name.as_str(), "` vanished from config"),
                    ),
                ),
                Some(script) => if script.service.is_some() {
                    Some(LaunchRejection::NotRunnable("in-container scripts are deferred".to_owned()))
                } else {
                    None
                },
            },
        }
    }

    /// Launches the selected row without arguments.
    pub fn try_launch_selected(&mut self) -> (res: Result<Launch, LaunchRejection>)
        ensures
            match res {
                Ok(launch) => old(self).launch_refusal() is None && old(self).launched(*final(self))
                    && old(self).launch_matches(launch, seq![]),
                Err(r) => old(self).launch_refusal() == Some(r@) && *final(self) == *old(self),
            },
    {
        let args: Vec<String> = Vec::new();
        assert(args.deep_view() =~= Seq::<Seq<char>>::empty());
        self.try_launch_selected_with_args(args)
    }

    /// Launches the selected row with `args`. Different rows may run side by side;
    /// a row that runs already is refused, as is one that cannot be run from here.
    pub fn try_launch_selected_with_args(&mut self, args: Vec<String>) -> (res: Result<
        Launch,
        LaunchRejection,
    >)
        ensures
            match res {
                Ok(launch) => old(self).launch_refusal() is None && old(self).launched(*final(self))
                    && old(self).launch_matches(launch, args.deep_view()),
                Err(r) => old(self).launch_refusal() == Some(r@) && *final(self) == *old(self),
            },
    {
        let (kind, name) = match self.selected_item() {
            Some(item) => (item.kind, item.name.clone()),
            None => return Err(LaunchRejection::NotRunnable("no selection".to_owned())),
        };
        let running = match self.run_for(kind, name.as_str()) {
            Some(run) => !run.is_done(),
            None => false,
        };
        if running {
            return Err(LaunchRejection::AlreadyRunning);
        }
        if !self.has_executor {
            return Err(LaunchRejection::NoExecutor);
        }
        if let Some(rejection) = self.check_kind(&self.items[self.selected]) {
            return Err(rejection);
        }
        let ghost runs0 = self.runs@;
        drop_run(&mut self.runs, kind, name.as_str());
        let ghost kept = self.runs@;
        self.runs.push(RunEntry { kind, name: name.clone(), run: RunState::begun(name.clone()) });
        self.flash = None;
        proof {
            assert(self.runs@.drop_last() =~= kept);
            assert forall|kind2: ItemKind, name2: Seq<char>|
                !(kind2 == kind && name2 == name@) implies #[trigger] run_of(
                self.runs@,
                kind2,
                name2,
            ) == run_of(runs0, kind2, name2) by {
                lemma_runs_without(runs0, kind, name@, kind2, name2);
            }
        }
        Ok(Launch { kind, name, args })
    }

    /// This state without the run of the selected row.
    pub open spec fn without_selected_run(&self, post: App) -> bool {
        let item = self.selection()->0;
        &&& post == (App { runs: post.runs, ..*self })
        &&& post.runs@ == runs_without(self.runs@, item.kind, item.name@)
    }

    /// Starts the selected row over: a run in flight is to be aborted, its output
    /// is forgotten, and the row is launched without arguments.
    pub fn force_relaunch_selected(&mut self) -> (res: Relaunch)
        ensures
            old(self).selection() is None ==> !res.aborted && *final(self) == *old(self)
                && (res.outcome matches Err(r) && r@ == Refusal::NotRunnable("no selection"@)),
            old(self).selection() is Some ==> res.aborted == old(self).selection_running()
                && exists|mid: App| #[trigger]
                old(self).without_selected_run(mid) && match res.outcome {
                    Ok(launch) => mid.launch_refusal() is None && mid.launched(*final(self))
                        && mid.launch_matches(launch, seq![]),
                    Err(r) => mid.launch_refusal() == Some(r@) && *final(self) == mid,
                },
    {
        let (kind, name) = match self.selected_item() {
            Some(item) => (item.kind, item.name.clone()),
            None => return Relaunch {
                aborted: false,
                outcome: Err(LaunchRejection::NotRunnable("no selection".to_owned())),
            },
        };
        let aborted = match self.run_for(kind, name.as_str()) {
            Some(run) => !run.is_done(),
            None => false,
        };
        drop_run(&mut self.runs, kind, name.as_str());
        let ghost mid = *self;
        assert(old(self).without_selected_run(mid));
        let outcome = self.try_launch_selected();
        Relaunch { aborted, outcome }
    }

    /// How keys are routed.
    pub fn mode(&self) -> (res: Mode)
        ensures
            res == self.mode,
    {
        self.mode
    }

    /// The open palette.
    pub fn palette(&self) -> (res: Option<&Palette>)
        ensures
            res is Some == self.palette is Some,
            res is Some ==> Some(*res->0) == self.palette,
    {
        self.palette.as_ref()
    }

    /// The palette, to be changed.
    pub fn palette_mut(&mut self) -> (res: Option<&mut Palette>)
        ensures
            match res {
                Some(p) => old(self).palette == Some(*p) && *final(self) == (App {
                    palette: Some(*final(p)),
                    ..*old(self)
                }),
                None => old(self).palette is None && *final(self) == *old(self),
            },
    {
        match &mut self.palette {
            Some(p) => Some(p),
            None => None,
        }
    }

    /// `post` is this state with a fresh palette over its rows.
    pub open spec fn palette_opened(&self, post: App) -> bool {
        &&& post == (App { mode: Mode::Palette, palette: post.palette, ..*self })
        &&& post.palette matches Some(p) && p.wf() && p.input@.len() == 0 && p.selected == 0
            && palette::candidate_models(p.candidates@) == palette::candidates_of(
            self.items.deep_view(),
            self.items@.len(),
        )
    }

    /// Opens the palette.
    pub fn open_palette(&mut self)
        ensures
            old(self).palette_opened(*final(self)),
            final(self).palette_valid(),
    {
        self.mode = Mode::Palette;
        let p = Palette::new(&self.items);
        proof {
            palette::lemma_candidates_below(p, self.items.deep_view());
        }
        self.palette = Some(p);
    }

    /// Closes the palette.
    pub fn close_palette(&mut self)
        ensures
            *final(self) == (App { mode: Mode::Normal, palette: None, ..*old(self) }),
    {
        self.mode = Mode::Normal;
        self.palette = None;
    }

    /// The complaint about launching a row of that kind from the palette.
    pub open spec fn palette_refusal(item: Item) -> Option<Refusal> {
        match item.kind {
            ItemKind::Service => Some(
                Refusal::NotRunnable(
                    "service `"@ + item.name@ + "` can't be launched from the palette"@,
                ),
            ),
            ItemKind::Watcher => Some(
                Refusal::NotRunnable(
                    "watcher `"@ + item.name@ + "` can't be launched from the palette"@,
                ),
            ),
            _ => None,
        }
    }

    /// This state with the palette closed and the row at `idx` selected.
    pub open spec fn palette_picked(&self, idx: usize) -> App {
        App { mode: Mode::Normal, palette: None, selected: idx, ..*self }
    }

    /// Resolves the palette: selects the matched row, closes the palette and
    /// launches the row with the arguments of the query. Without a match nothing
    /// happens.
    pub fn confirm_palette(&mut self) -> (res: Option<Result<Launch, LaunchRejection>>)
        requires
            old(self).palette_valid(),
        ensures
            old(self).selection_valid() ==> final(self).selection_valid(),
            match old(self).palette {
                None => res is None && *final(self) == *old(self),
                Some(p) => if p.selected >= p.matches@.len() {
                    res is None && *final(self) == *old(self)
                } else {
                    let idx = p.matches@[p.selected as int].item_index;
                    let mid = old(self).palette_picked(idx);
                    let item = old(self).items@[idx as int];
                    &&& res is Some
                    &&& match App::palette_refusal(item) {
                        Some(refusal) => (res->0 matches Err(r) && r@ == refusal) && *final(self)
                            == mid,
                        None => match res->0 {
                            Ok(launch) => mid.launch_refusal() is None && mid.launched(*final(self))
                                && mid.launch_matches(launch, palette::args_of(p.input@)),
                            Err(r) => mid.launch_refusal() == Some(r@) && *final(self) == mid,
                        },
                    }
                },
            },
    {
        let count: usize = self.items.len();
        let (idx, args) = match &self.palette {
            Some(p) => match p.selected_match() {
                Some(m) => (m.item_index, p.parsed_args()),
                None => return None,
            },
            None => return None,
        };
        proof {
            palette::lemma_matches_below(self.palette->0, count as int);
        }
        self.close_palette();
        self.selected = idx;
        let kind = self.items[idx].kind;
        if kind == ItemKind::Service {
            return Some(
                Err(
                    LaunchRejection::NotRunnable(
                        concat3(
                            "service `",
                            self.items[idx].name.as_str(),
                            "` can't be launched from the palette",
                        ),
                    ),
                ),
            );
        }
        if kind == ItemKind::Watcher {
            return Some(
                Err(
                    LaunchRejection::NotRunnable(
                        concat3(
                            "watcher `",
                            self.items[idx].name.as_str(),
                            "` can't be launched from the palette",
                        ),
                    ),
                ),
            );
        }
        Some(self.try_launch_selected_with_args(args))
    }

    /// `post` is this state asking whether to start the selected row over.
    pub open spec fn asked_to_restart(&self, post: App) -> bool {
        let item = self.selection()->0;
        &&& post == (App { confirm: post.confirm, mode: Mode::Confirm, ..*self })
        &&& post.confirm matches Some(d) && d.title@ == "`"@ + item.name@ + "` is running"@
            && d.body@ == "Kill and restart?"@ && d.yes_focused && match d.action {
            ConfirmAction::KillAndRestart { kind, name } => kind == item.kind && name@
                == item.name@,
        }
    }

    /// Asks whether to start the selected row over. Does nothing unless that row
    /// is running.
    pub fn open_kill_restart_confirm(&mut self)
        ensures
            old(self).selection_running() ==> old(self).asked_to_restart(*final(self)),
            !old(self).selection_running() ==> *final(self) == *old(self),
    {
        let (kind, name) = match self.selected_item() {
            Some(item) => (item.kind, item.name.clone()),
            None => return ,
        };
        let running = match self.run_for(kind, name.as_str()) {
            Some(run) => !run.is_done(),
            None => false,
        };
        if !running {
            return ;
        }
        self.confirm = Some(
            ConfirmDialog {
                title: concat3("`", name.as_str(), "` is running"),
                body: "Kill and restart?".to_owned(),
                yes_focused: true,
                action: ConfirmAction::KillAndRestart { kind, name },
            },
        );
        self.mode = Mode::Confirm;
    }

    /// The open question.
    pub fn confirm_dialog(&self) -> (res: Option<&ConfirmDialog>)
        ensures
            res is Some == self.confirm is Some,
            res is Some ==> Some(*res->0) == self.confirm,
    {
        self.confirm.as_ref()
    }

    /// This state with the other choice of the open question focused.
    pub open spec fn focus_toggled(&self) -> App {
        match self.confirm {
            Some(d) => App {
                confirm: Some(ConfirmDialog { yes_focused: !d.yes_focused, ..d }),
                ..*self
            },
            None => *self,
        }
    }

    /// Focuses the other choice.
    pub fn confirm_toggle_focus(&mut self)
        ensures
            *final(self) == old(self).focus_toggled(),
    {
        if let Some(d) = &mut self.confirm {
            d.yes_focused = !d.yes_focused;
        }
    }

    /// Whether the selected row takes arguments.
    pub open spec fn accepts_args(&self) -> bool {
        match self.selection() {
            Some(item) => match item.kind {
                ItemKind::Recipe => self.config.commands@.contains_key(item.name@)
                    && self.config.commands@[item.name@].forward_args,
                ItemKind::Script => self.config.scripts@.contains_key(item.name@)
                    && self.config.scripts@[item.name@].forward_args,
                _ => false,
            },
            None => false,
        }
    }

    /// Whether the selected row takes arguments.
    pub fn selected_accepts_args(&self) -> (res: bool)
        ensures
            res == self.accepts_args(),
    {
        match self.selected_item() {
            Some(item) => match item.kind {
                ItemKind::Recipe => match self.config.commands.get(item.name.as_str()) {
                    Some(r) => r.forward_args,
                    None => false,
                },
                ItemKind::Script => match self.config.scripts.get(item.name.as_str()) {
                    Some(s) => s.forward_args,
                    None => false,
                },
                _ => false,
            },
            None => false,
        }
    }

    /// `post` is this state asking for the selected row's arguments.
    pub open spec fn asked_for_args(&self, post: App) -> bool {
        let item = self.selection()->0;
        &&& post == (App { args_prompt: post.args_prompt, mode: Mode::ArgsPrompt, ..*self })
        &&& post.args_prompt matches Some(p) && p.item_name@ == item.name@ && p.kind == item.kind
            && p.input@.len() == 0
    }

    /// Opens the arguments prompt for a row that takes arguments.
    pub fn open_args_prompt(&mut self)
        ensures
            old(self).accepts_args() ==> old(self).asked_for_args(*final(self)),
            !old(self).accepts_args() ==> *final(self) == *old(self),
    {
        if !self.selected_accepts_args() {
            return ;
        }
        if let Some(item) = self.selected_item() {
            let prompt = ArgsPrompt {
                item_name: item.name.clone(),
                kind: item.kind,
                input: String::new(),
            };
            self.args_prompt = Some(prompt);
            self.mode = Mode::ArgsPrompt;
        }
    }

    /// The open arguments prompt.
    pub fn args_prompt(&self) -> (res: Option<&ArgsPrompt>)
        ensures
            res is Some == self.args_prompt is Some,
            res is Some ==> Some(*res->0) == self.args_prompt,
    {
        self.args_prompt.as_ref()
    }

    /// `post` is this state with `input` in the open arguments prompt.
    pub open spec fn args_typed(&self, post: App, input: Seq<char>) -> bool {
        match self.args_prompt {
            Some(p) => {
                &&& post == (App { args_prompt: post.args_prompt, ..*self })
                &&& post.args_prompt matches Some(q) && q == (ArgsPrompt { input: q.input, ..p })
                    && q.input@ == input
            },
            None => post == *self,
        }
    }

    /// Appends `c` to the arguments.
    pub fn args_prompt_push_char(&mut self, c: char)
        ensures
            old(self).args_typed(*final(self), old(self).args_prompt->0.input@.push(c)),
    {
        if let Some(p) = &mut self.args_prompt {
            p.input.push(c);
        }
    }

    /// Drops the last character of the arguments.
    pub fn args_prompt_pop_char(&mut self)
        ensures
            old(self).args_typed(
                *final(self),
                text::without_last(old(self).args_prompt->0.input@),
            ),
    {
        if let Some(p) = &mut self.args_prompt {
            text::drop_last_char(&mut p.input);
        }
    }

    /// The arguments that a prompt's input gives: none for blanks and for what the
    /// shell's quoting rules do not admit.
    pub open spec fn prompt_args(input: Seq<char>) -> Seq<Seq<char>> {
        if text::trimmed(input).len() == 0 {
            seq![]
        } else {
            match shell::shell_words_of(input) {
                Some(words) => words,
                None => seq![],
            }
        }
    }

    /// `mid` is this state back in normal mode, with the row of that kind and name
    /// selected if there is one.
    pub open spec fn reselected(&self, kind: ItemKind, name: Seq<char>, mid: App) -> bool {
        &&& mid == (App { selected: mid.selected, ..*self })
        &&& item_position(self.items@, kind, name, mid.selected as int) || (mid.selected
            == self.selected && forall|k: int|
            0 <= k < self.items@.len() ==> !((#[trigger] self.items@[k]).kind == kind
                && self.items@[k].name@ == name))
    }

    /// Resolves the arguments prompt: launches its row when accepted, else only
    /// closes it.
    pub fn args_prompt_resolve(&mut self, accept: bool) -> (res: Option<
        Result<Launch, LaunchRejection>,
    >)
        ensures
            match old(self).args_prompt {
                None => res is None && *final(self) == *old(self),
                Some(p) => {
                    let closed = App { args_prompt: None, mode: Mode::Normal, ..*old(self) };
                    if !accept {
                        res is None && *final(self) == closed
                    } else {
                        res is Some && exists|mid: App| #[trigger]
                            closed.reselected(p.kind, p.item_name@, mid) && match res->0 {
                                Ok(launch) => mid.launch_refusal() is None && mid.launched(
                                    *final(self),
                                ) && mid.launch_matches(launch, App::prompt_args(p.input@)),
                                Err(r) => mid.launch_refusal() == Some(r@) && *final(self) == mid,
                            }
                    }
                },
            },
    {
        let prompt = match self.args_prompt.take() {
            Some(p) => p,
            None => return None,
        };
        self.mode = Mode::Normal;
        if !accept {
            return None;
        }
        let ghost closed = *self;
        let blank = text::trim(prompt.input.as_str());
        let args: Vec<String> = if blank.as_str().is_empty() {
            Vec::new()
        } else {
            match split_words(prompt.input.as_str()) {
                Ok(words) => words,
                Err(_) => Vec::new(),
            }
        };
        assert(args.deep_view() =~= App::prompt_args(prompt.input@));
        if let Some(idx) = find_item(&self.items, prompt.kind, prompt.item_name.as_str()) {
            self.selected = idx;
        }
        let ghost mid = *self;
        assert(closed.reselected(prompt.kind, prompt.item_name@, mid));
        Some(self.try_launch_selected_with_args(args))
    }

    /// Resolves the open question: starts the row over when accepted, else only
    /// closes it.
    pub fn confirm_resolve(&mut self, accept: bool) -> (res: Option<Relaunch>)
        ensures
            match old(self).confirm {
                None => res is None && *final(self) == *old(self),
                Some(d) => {
                    let closed = App { confirm: None, mode: Mode::Normal, ..*old(self) };
                    if !accept {
                        res is None && *final(self) == closed
                    } else {
                        res is Some && exists|mid: App| #[trigger]
                            closed.reselected(
                                d.action->kind,
                                d.action->name@,
                                mid,
                            ) && mid.relaunched(res->0, *final(self))
                    }
                },
            },
    {
        let dialog = match self.confirm.take() {
            Some(d) => d,
            None => return None,
        };
        self.mode = Mode::Normal;
        if !accept {
            return None;
        }
        let ghost closed = *self;
        match dialog.action {
            ConfirmAction::KillAndRestart { kind, name } => {
                if let Some(idx) = find_item(&self.items, kind, name.as_str()) {
                    self.selected = idx;
                }
                let ghost mid = *self;
                assert(closed.reselected(kind, name@, mid));
                let res = self.force_relaunch_selected();
                assert(mid.relaunched(res, *self));
                Some(res)
            },
        }
    }

    /// `post` and `res` are what starting the selected row over gives.
    pub open spec fn relaunched(&self, res: Relaunch, post: App) -> bool {
        &&& self.selection() is None ==> !res.aborted && post == *self && (res.outcome matches Err(
            r,
        ) && r@ == Refusal::NotRunnable("no selection"@))
        &&& self.selection() is Some ==> res.aborted == self.selection_running() && exists|mid: App|
            #[trigger]
            self.without_selected_run(mid) && match res.outcome {
                Ok(launch) => mid.launch_refusal() is None && mid.launched(post)
                    && mid.launch_matches(launch, seq![]),
                Err(r) => mid.launch_refusal() == Some(r@) && post == mid,
            }
    }

    /// Whether the selected row has a run to abort.
    pub fn abort_selected_run(&self) -> (res: bool)
        ensures
            res == self.selection_running(),
    {
        match self.selected_run() {
            Some(run) => !run.is_done(),
            None => false,
        }
    }

    /// Whether there is a lifecycle run to abort.
    pub fn abort_lifecycle_run(&self) -> (res: bool)
        ensures
            res == self.lifecycle_running(),
    {
        match &self.lifecycle_run {
            Some(run) => !run.is_done(),
            None => false,
        }
    }

    /// Why a lifecycle action cannot start; nothing when it can.
    pub open spec fn action_refusal(&self) -> Option<Refusal> {
        if self.lifecycle_running() {
            Some(Refusal::AlreadyRunning)
        } else if !self.has_backend {
            Some(Refusal::NoExecutor)
        } else {
            None
        }
    }

    /// Whether a lifecycle action can start: no other is running and there is a
    /// backend. Runs of rows do not stand in its way.
    pub fn check_service_action(&self) -> (res: Result<(), LaunchRejection>)
        ensures
            match res {
                Ok(_) => self.action_refusal() is None,
                Err(r) => self.action_refusal() == Some(r@),
            },
    {
        if self.abort_lifecycle_run() {
            return Err(LaunchRejection::AlreadyRunning);
        }
        if !self.has_backend {
            return Err(LaunchRejection::NoExecutor);
        }
        Ok(())
    }

    /// `post` is this state with a lifecycle action on `services` begun, and the
    /// container row selected if there is one.
    pub open spec fn action_begun(
        &self,
        action: ServiceAction,
        services: Seq<Seq<char>>,
        post: App,
    ) -> bool {
        &&& post == (App {
            lifecycle_run: post.lifecycle_run,
            selected: post.selected,
            ..*self
        })
        &&& post.lifecycle_run matches Some(run) && run.name@ == action_label(action, services)
            && run.buffer@.len() == 0 && !run.done()
        &&& container_at(self.items@, post.selected as int) || (post.selected == self.selected
            && forall|k: int|
            0 <= k < self.items@.len() ==> (#[trigger] self.items@[k]).kind != ItemKind::Container)
    }

    /// Begins a lifecycle action on `services`, all of them when the list is empty,
    /// given whether the backend started it or what it said against it. An action
    /// that is refused, or that did not start, changes nothing.
    pub fn run_service_action(
        &mut self,
        action: ServiceAction,
        services: &Vec<String>,
        started: Result<(), String>,
    ) -> (res: Result<(), LaunchRejection>)
        ensures
            match old(self).action_refusal() {
                Some(r) => *final(self) == *old(self) && (res matches Err(e) && e@ == r),
                None => match started {
                    Ok(_) => res is Ok && old(self).action_begun(
                        action,
                        services.deep_view(),
                        *final(self),
                    ),
                    Err(msg) => *final(self) == *old(self) && (res matches Err(e) && e@
                        == Refusal::NotRunnable(msg@)),
                },
            },
    {
        match self.check_service_action() {
            Ok(_) => {},
            Err(e) => return Err(e),
        }
        match started {
            Ok(_) => {
                self.service_action_started(action, services);
                Ok(())
            },
            Err(msg) => Err(LaunchRejection::NotRunnable(msg)),
        }
    }

    fn service_action_started(&mut self, action: ServiceAction, services: &Vec<String>)
        ensures
            old(self).action_begun(action, services.deep_view(), *final(self)),
    {
        let mut label = concat("compose ", action.word());
        if services.len() > 0 {
            let names = text::join(services, " ");
            label.append(" ");
            label.append(names.as_str());
        }
        self.lifecycle_run = Some(RunState::begun(label));
        if let Some(idx) = find_container(&self.items) {
            self.selected = idx;
        }
    }

    /// Takes in the services that the backend reported. Unknown ones get a pane,
    /// and the sidebar is rebuilt when there were any.
    pub fn discover_services(&mut self, discovered: &Vec<String>)
        ensures
            *final(self) == (App {
                services: final(self).services,
                items: final(self).items,
                ..*old(self)
            }),
            forall|k: Seq<char>| #[trigger]
                final(self).services@.contains_key(k) <==> old(self).services@.contains_key(k)
                    || discovered.deep_view().contains(k),
            forall|k: Seq<char>| #[trigger]
                old(self).services@.contains_key(k) ==> final(self).services@[k]
                    == old(self).services@[k],
            forall|k: Seq<char>|
                !old(self).services@.contains_key(k) && #[trigger] final(
                    self).services@.contains_key(k) ==> final(self).services@[k].name@ == k
                    && final(self).services@[k].is_new(final(self).services@[k].name),
            (forall|k: Seq<char>|
                discovered.deep_view().contains(k) ==> #[trigger] old(
                    self).services@.contains_key(k)) ==> final(self).items == old(self).items,
            !(forall|k: Seq<char>|
                discovered.deep_view().contains(k) ==> #[trigger] old(
                    self).services@.contains_key(k)) ==> final(self).items.deep_view() == items_of(
                *old(self).config,
                final(self).services.keys(),
                old(self).watchers.keys(),
            ),
    {
        let ghost before = self.services@;
        let ghost all = discovered.deep_view();
        let mut added = false;
        let mut i: usize = 0;
        while i < discovered.len()
            invariant
                i <= discovered@.len(),
                all == discovered.deep_view(),
                *self == (App { services: self.services, ..*old(self) }),
                before == old(self).services@,
                forall|k: Seq<char>| #[trigger]
                    self.services@.contains_key(k) <==> before.contains_key(k) || all.take(
                        i as int,
                    ).contains(k),
                forall|k: Seq<char>| #[trigger]
                    before.contains_key(k) ==> self.services@[k] == before[k],
                forall|k: Seq<char>|
                    !before.contains_key(k) && #[trigger] self.services@.contains_key(k)
                        ==> self.services@[k].name@ == k && self.services@[k].is_new(
                        self.services@[k].name,
                    ),
                !added ==> forall|k: Seq<char>|
                    all.take(i as int).contains(k) ==> #[trigger] before.contains_key(k),
                added ==> exists|k: Seq<char>|
                    all.contains(k) && !(#[trigger] before.contains_key(k)),
            decreases discovered@.len() - i,
        {
            let name = &discovered[i];
            let ghost k0 = name@;
            proof {
                assert(all[i as int] == k0);
                assert(all.contains(k0));
                let t = all.take(i as int);
                assert(all.take(i + 1) =~= t.push(k0));
                assert forall|k: Seq<char>| all.take(i + 1).contains(k) <==> t.contains(k) || k
                    == k0 by {
                    if t.contains(k) {
                        assert(all.take(i + 1)[t.index_of(k)] == k);
                    }
                    if k == k0 {
                        assert(all.take(i + 1)[i as int] == k);
                    }
                }
            }
            if !self.services.contains_key(name.as_str()) {
                let pane = ServicePane::new(name.clone());
                self.services.insert(name.clone(), pane);
                added = true;
                assert(!before.contains_key(k0));
            }
            i += 1;
        }
        assert(all.take(i as int) =~= all);
        if added {
            self.items = build_items_from(&self.config, &self.services, &self.watchers);
        }
    }

    /// Adds a watcher pane and rebuilds the sidebar.
    pub fn add_watcher(&mut self, name: String, pane: WatcherPane)
        ensures
            *final(self) == (App {
                watchers: final(self).watchers,
                items: final(self).items,
                ..*old(self)
            }),
            final(self).watchers@ == old(self).watchers@.insert(name@, pane),
            final(self).items.deep_view() == items_of(
                *old(self).config,
                old(self).services.keys(),
                final(self).watchers.keys(),
            ),
    {
        self.watchers.insert(name, pane);
        self.items = build_items_from(&self.config, &self.services, &self.watchers);
    }

    /// Takes in what the run of a row printed, and how it ended if it did. Other
    /// rows keep theirs; a row without a run stays without one.
    pub fn poll_run(
        &mut self,
        kind: ItemKind,
        name: &str,
        lines: Vec<CapturedLine>,
        outcome: Option<RunOutcome>,
    )
        ensures
            *final(self) == (App { runs: final(self).runs, ..*old(self) }),
            match run_of(old(self).runs@, kind, name@) {
                Some(run) => run_of(final(self).runs@, kind, name@) matches Some(post)
                    && run.advances(lines@, outcome, post),
                None => final(self).runs@ == old(self).runs@,
            },
            forall|k: ItemKind, n: Seq<char>|
                !(k == kind && n == name@) ==> #[trigger] run_of(final(self).runs@, k, n) == run_of(
                    old(self).runs@,
                    k,
                    n,
                ),
    {
        let ghost before = self.runs@;
        if let Some(i) = find_run(&self.runs, kind, name) {
            let mut entry = self.runs.remove(i);
            entry.run.advance(lines, outcome);
            self.runs.insert(i, entry);
            proof {
                assert(self.runs@ =~= before.update(i as int, entry));
                lemma_run_replaced(before, i as int, entry, kind, name@);
                assert forall|k: ItemKind, n: Seq<char>| !(k == kind && n == name@) implies #[trigger] run_of(
                    self.runs@,
                    k,
                    n,
                ) == run_of(before, k, n) by {
                    lemma_run_replaced(before, i as int, entry, k, n);
                }
            }
        }
    }

    /// Takes in what the lifecycle action printed, and how it ended if it did.
    pub fn poll_lifecycle(&mut self, lines: Vec<CapturedLine>, outcome: Option<RunOutcome>)
        ensures
            *final(self) == (App { lifecycle_run: final(self).lifecycle_run, ..*old(self) }),
            match old(self).lifecycle_run {
                Some(run) => final(self).lifecycle_run matches Some(post) && run.advances(
                    lines@,
                    outcome,
                    post,
                ),
                None => final(self).lifecycle_run is None,
            },
    {
        if let Some(run) = self.lifecycle_run.take() {
            let mut advanced = run;
            advanced.advance(lines, outcome);
            self.lifecycle_run = Some(advanced);
        }
    }

    /// Takes in what the log process of a service printed, and how it ended if it
    /// did; a report about an unknown service is dropped.
    pub fn poll_service(&mut self, name: &str, lines: Vec<CapturedLine>, exit: Option<TailExit>)
        ensures
            *final(self) == (App { services: final(self).services, ..*old(self) }),
            forall|n: Seq<char>| #[trigger]
                final(self).services@.contains_key(n) == old(self).services@.contains_key(n),
            forall|n: Seq<char>|
                n != name@ && old(self).services@.contains_key(n) ==> #[trigger] final(
                    self).services@[n] == old(self).services@[n],
            old(self).services@.contains_key(name@) ==> old(self).services@[name@].polled(
                lines@,
                exit,
                final(self).services@[name@],
            ),
    {
        let ghost before = self.services@;
        if let Some(pane) = self.services.remove(name) {
            let mut polled = pane;
            polled.poll_tail(lines, exit);
            self.services.insert(name.to_owned(), polled);
            assert(self.services@ =~= before.insert(name@, polled));
        } else {
            assert(self.services@ =~= before);
        }
    }

    /// Advances the cycle of a watcher and says whether to start its recipe; an
    /// unknown one does nothing.
    pub fn tick_watcher(&mut self, name: &str, input: WatcherInput) -> (res: bool)
        ensures
            *final(self) == (App { watchers: final(self).watchers, ..*old(self) }),
            forall|n: Seq<char>| #[trigger]
                final(self).watchers@.contains_key(n) == old(self).watchers@.contains_key(n),
            forall|n: Seq<char>|
                n != name@ && old(self).watchers@.contains_key(n) ==> #[trigger] final(
                    self).watchers@[n] == old(self).watchers@[n],
            res == (old(self).watchers@.contains_key(name@) && old(self).watchers@[name@].fires(
                input,
            )),
            old(self).watchers@.contains_key(name@) ==> old(self).watchers@[name@].ticks(
                input,
                final(self).watchers@[name@],
            ),
    {
        let ghost before = self.watchers@;
        if let Some(pane) = self.watchers.remove(name) {
            let mut ticked = pane;
            let fired = ticked.tick(input);
            self.watchers.insert(name.to_owned(), ticked);
            assert(self.watchers@ =~= before.insert(name@, ticked));
            fired
        } else {
            assert(self.watchers@ =~= before);
            false
        }
    }

    /// Folds the worker's report into the pane of its service; a report about an
    /// unknown service is dropped.
    pub fn set_service_status(&mut self, name: &str, status: crate::container::ServiceStatus)
        ensures
            *final(self) == (App { services: final(self).services, ..*old(self) }),
            old(self).services@.contains_key(name@) ==> final(self).services@
                == old(self).services@.insert(
                name@,
                ServicePane { status: Some(status), ..old(self).services@[name@] },
            ),
            !old(self).services@.contains_key(name@) ==> final(self).services@
                == old(self).services@,
    {
        let ghost before = self.services@;
        if let Some(pane) = self.services.remove(name) {
            let mut updated = pane;
            updated.status = Some(status);
            self.services.insert(name.to_owned(), updated);
            assert(self.services@ =~= before.insert(
                name@,
                ServicePane { status: Some(status), ..before[name@] },
            ));
        } else {
            assert(self.services@ =~= before);
        }
    }
}

/// Focusing the other choice twice changes nothing.
pub proof fn law_focus_toggle_is_an_involution(app: App)
    ensures
        app.focus_toggled().focus_toggled() == app,
{
}

/// Whether the pane shows the service of that name.
pub open spec fn shows_service(pane: UiPane, name: Seq<char>) -> bool {
    pane matches UiPane::Service { service, .. } && service@ == name
}

/// Whether one of the panes shows the service of that name.
pub open spec fn shown_by_a_pane(panes: Seq<UiPane>, name: Seq<char>) -> bool {
    exists|k: int| 0 <= k < panes.len() && shows_service(#[trigger] panes[k], name)
}

/// The services that lead the sidebar are the known ones that a pane shows, each where
/// it is shown first.
pub proof fn law_shown_services_come_first(panes: Seq<UiPane>, known: Set<Seq<char>>)
    ensures
        lists::selects(
            declared_services(panes, known, panes.len()),
            |i: int| panes[i]->service@,
            |i: int|
                panes[i] is Service && known.contains(panes[i]->service@) && !shown_by_a_pane(
                    panes.take(i),
                    panes[i]->service@,
                ),
            panes.len(),
        ),
{
    lemma_declared(panes, known, panes.len());
}

proof fn lemma_declared(panes: Seq<UiPane>, known: Set<Seq<char>>, n: nat)
    requires
        n <= panes.len(),
    ensures
        lists::selects(
            declared_services(panes, known, n),
            |i: int| panes[i]->service@,
            |i: int|
                panes[i] is Service && known.contains(panes[i]->service@) && !shown_by_a_pane(
                    panes.take(i),
                    panes[i]->service@,
                ),
            n,
        ),
        forall|name: Seq<char>| #[trigger]
            declared_services(panes, known, n).contains(name) <==> known.contains(name)
                && shown_by_a_pane(panes.take(n as int), name),
    decreases n,
{
    let value = |i: int| panes[i]->service@;
    let keep = |i: int|
        panes[i] is Service && known.contains(panes[i]->service@) && !shown_by_a_pane(
            panes.take(i),
            panes[i]->service@,
        );
    let all = declared_services(panes, known, n);
    if n == 0 {
        lists::lemma_selects_none(value, keep);
        assert(panes.take(0).len() == 0);
    } else {
        let m = (n - 1) as nat;
        lemma_declared(panes, known, m);
        let rest = declared_services(panes, known, m);
        lists::lemma_selects_next(rest, value, keep, m);
        let before = panes.take(m as int);
        let upto = panes.take(n as int);
        assert forall|name: Seq<char>| #[trigger] all.contains(name) <==> known.contains(name)
            && shown_by_a_pane(upto, name) by {
            if all.contains(name) {
                let i = all.index_of(name);
                if i < rest.len() {
                    assert(rest[i] == name);
                    assert(rest.contains(name));
                    let k = choose|k: int|
                        0 <= k < before.len() && shows_service(#[trigger] before[k], name);
                    assert(upto[k] == before[k]);
                } else {
                    assert(shows_service(upto[m as int], name));
                }
            }
            if known.contains(name) && shown_by_a_pane(upto, name) {
                let k = choose|k: int|
                    0 <= k < upto.len() && shows_service(#[trigger] upto[k], name);
                if k < m {
                    assert(before[k] == upto[k]);
                    assert(rest.contains(name));
                }
                if rest.contains(name) {
                    let i = rest.index_of(name);
                    assert(all[i] == name);
                } else {
                    assert(all[rest.len() as int] == name);
                }
            }
        }
    }
}

/// The other services keep their order.
pub proof fn law_other_services_follow(panes: Seq<UiPane>, services: Seq<Seq<char>>)
    ensures
        lists::selects(
            undeclared_services(
                services,
                declared_services(panes, services.to_set(), panes.len()),
                services.len(),
            ),
            |i: int| services[i],
            |i: int| !shown_by_a_pane(panes, services[i]),
            services.len(),
        ),
{
    lemma_undeclared(panes, services, services.len());
}

proof fn lemma_undeclared(panes: Seq<UiPane>, services: Seq<Seq<char>>, n: nat)
    requires
        n <= services.len(),
    ensures
        lists::selects(
            undeclared_services(
                services,
                declared_services(panes, services.to_set(), panes.len()),
                n,
            ),
            |i: int| services[i],
            |i: int| !shown_by_a_pane(panes, services[i]),
            n,
        ),
    decreases n,
{
    let value = |i: int| services[i];
    let keep = |i: int| !shown_by_a_pane(panes, services[i]);
    let first = declared_services(panes, services.to_set(), panes.len());
    if n == 0 {
        lists::lemma_selects_none(value, keep);
    } else {
        let m = (n - 1) as nat;
        lemma_undeclared(panes, services, m);
        lists::lemma_selects_next(undeclared_services(services, first, m), value, keep, m);
        lemma_declared(panes, services.to_set(), panes.len());
        assert(panes.take(panes.len() as int) =~= panes);
        assert(services.contains(services[m as int]));
        assert(services.to_set().contains(services[m as int]));
    }
}

/// The sidebar has a row for the container backend, where there is one, then for every
/// service, watcher, recipe and script, under its own name, and no other row.
pub proof fn law_the_sidebar_lists_everything(
    config: Config,
    services: Seq<Seq<char>>,
    watchers: Seq<Seq<char>>,
)
    ensures
        ({
            let items = items_of(config, services, watchers);
            let rows = |names: Seq<Seq<char>>, kind: ItemKind|
                Seq::new(names.len(), |i: int| ItemModel { name: names[i], kind });
            let panes = config.ui.panes@;
            let first = declared_services(panes, services.to_set(), panes.len());
            let others = undeclared_services(services, first, services.len());
            let recipes = config.commands.keys();
            let scripts = config.scripts.keys();
            let a = if config.runtime.backend == Backend::NoRuntime {
                0int
            } else {
                1
            };
            let b = a + first.len();
            let c = b + others.len();
            let d = c + watchers.len();
            let e = d + recipes.len();
            &&& items.len() == e + scripts.len()
            &&& a == 1 ==> items[0].kind == ItemKind::Container
            &&& config.runtime.backend == Backend::Compose ==> items[0].name == "compose"@
            &&& config.runtime.backend == Backend::Docker ==> items[0].name == "docker"@
            &&& config.runtime.backend == Backend::Podman ==> items[0].name == "podman"@
            &&& items.subrange(a, b) == rows(first, ItemKind::Service)
            &&& items.subrange(b, c) == rows(others, ItemKind::Service)
            &&& items.subrange(c, d) == rows(watchers, ItemKind::Watcher)
            &&& items.subrange(d, e) == rows(recipes, ItemKind::Recipe)
            &&& items.subrange(e, items.len() as int) == rows(scripts, ItemKind::Script)
        }),
{
    let items = items_of(config, services, watchers);
    let rows = |names: Seq<Seq<char>>, kind: ItemKind|
        Seq::new(names.len(), |i: int| ItemModel { name: names[i], kind });
    let panes = config.ui.panes@;
    let first = declared_services(panes, services.to_set(), panes.len());
    let others = undeclared_services(services, first, services.len());
    let recipes = config.commands.keys();
    let scripts = config.scripts.keys();
    let a = if config.runtime.backend == Backend::NoRuntime {
        0int
    } else {
        1
    };
    let b = a + first.len();
    let c = b + others.len();
    let d = c + watchers.len();
    let e = d + recipes.len();
    assert(items.subrange(a, b) =~= rows(first, ItemKind::Service));
    assert(items.subrange(b, c) =~= rows(others, ItemKind::Service));
    assert(items.subrange(c, d) =~= rows(watchers, ItemKind::Watcher));
    assert(items.subrange(d, e) =~= rows(recipes, ItemKind::Recipe));
    assert(items.subrange(e, items.len() as int) =~= rows(scripts, ItemKind::Script));
}

/// A service has a pane from the start exactly where a pane of the configuration shows
/// it.
pub proof fn law_shown_services_have_panes(panes: Seq<UiPane>, n: nat, name: Seq<char>)
    requires
        n <= panes.len(),
    ensures
        pane_services(panes, n).contains(name) <==> shown_by_a_pane(panes.take(n as int), name),
    decreases n,
{
    let upto = panes.take(n as int);
    if n > 0 {
        let m = (n - 1) as nat;
        law_shown_services_have_panes(panes, m, name);
        let before = panes.take(m as int);
        if shown_by_a_pane(before, name) {
            let k = choose|k: int| 0 <= k < before.len() && shows_service(#[trigger] before[k], name);
            assert(upto[k] == before[k]);
        }
        if shows_service(panes[m as int], name) {
            assert(shows_service(upto[m as int], name));
        }
        if shown_by_a_pane(upto, name) && !shows_service(panes[m as int], name) {
            let k = choose|k: int| 0 <= k < upto.len() && shows_service(#[trigger] upto[k], name);
            assert(before[k] == upto[k]);
        }
    }
}

/// A watcher's pane is named after what it watches; where that name is taken, its place
/// follows.
pub proof fn law_watchers_are_named_after_what_they_watch(base: Seq<char>, idx: nat)
    ensures
        watcher_name(base, idx, false) == "watch:"@ + base,
        watcher_name(base, idx, true) == watcher_name(base, idx, false) + ":"@ + text::digits(idx),
{
}

/// The run of a row is the newest one in the list under its kind and name.
pub proof fn law_the_newest_run_of_a_row_counts(
    runs: Seq<RunEntry>,
    entry: RunEntry,
    kind: ItemKind,
    name: Seq<char>,
)
    ensures
        run_of(Seq::<RunEntry>::empty(), kind, name) is None,
        entry.kind == kind && entry.name@ == name ==> run_of(runs.push(entry), kind, name) == Some(
            entry.run,
        ),
        entry.kind != kind || entry.name@ != name ==> run_of(runs.push(entry), kind, name)
            == run_of(runs, kind, name),
{
    assert(runs.push(entry).drop_last() =~= runs);
}

/// The selected row can be launched exactly where it is a recipe or a script that the
/// configuration has and that runs on the host, it is not running, and runs can be
/// started. A row that runs is refused for that before anything else.
pub proof fn law_what_can_be_launched(app: App)
    ensures
        ({
            let refusal = app.launch_refusal();
            let item = app.items@[app.selected as int];
            let run = run_of(app.runs@, item.kind, item.name@);
            let running = run is Some && run->0.exit_code is None && run->0.error is None;
            let name = item.name@;
            let recipe = item.kind == ItemKind::Recipe;
            let script = item.kind == ItemKind::Script;
            let free = app.selected < app.items@.len() && !running && app.has_executor;
            &&& refusal is None <==> free && ((recipe && app.config.commands@.contains_key(name)
                && app.config.commands@[name].service is None) || (script
                && app.config.scripts@.contains_key(name) && app.config.scripts@[name].service
                is None))
            &&& app.selected >= app.items@.len() ==> refusal == Some(
                Refusal::NotRunnable("no selection"@),
            )
            &&& app.selected < app.items@.len() && running ==> refusal == Some(
                Refusal::AlreadyRunning,
            )
            &&& app.selected < app.items@.len() && !running && !app.has_executor ==> refusal
                == Some(Refusal::NoExecutor)
            &&& free && item.kind == ItemKind::Container ==> refusal == Some(
                Refusal::NotRunnable("container row shows lifecycle output; use U / D / R / S"@),
            )
            &&& free && item.kind == ItemKind::Service ==> refusal == Some(
                Refusal::NotRunnable("service panes show logs; press enter to up the service"@),
            )
            &&& free && item.kind == ItemKind::Watcher ==> refusal == Some(
                Refusal::NotRunnable("watcher panes auto-run on file change"@),
            )
            &&& free && recipe && !app.config.commands@.contains_key(name) ==> refusal == Some(
                Refusal::NotRunnable("recipe `"@ + name + "` vanished from config"@),
            )
            &&& free && script && !app.config.scripts@.contains_key(name) ==> refusal == Some(
                Refusal::NotRunnable("script `"@ + name + "` vanished from config"@),
            )
            &&& free && recipe && app.config.commands@.contains_key(name)
                && app.config.commands@[name].service is Some ==> refusal == Some(
                Refusal::NotRunnable(
                    "in-container recipes from the TUI are deferred — run from the CLI"@,
                ),
            )
            &&& free && script && app.config.scripts@.contains_key(name)
                && app.config.scripts@[name].service is Some ==> refusal == Some(
                Refusal::NotRunnable("in-container scripts are deferred"@),
            )
        }),
{
}

/// A launch gives the selected row a fresh run under its name, takes the banner away
/// and leaves the runs of other rows and all else; it names the row and has its
/// arguments.
pub proof fn law_a_launch_begins_one_run(
    app: App,
    post: App,
    launch: Launch,
    args: Seq<Seq<char>>,
    kind: ItemKind,
    name: Seq<char>,
)
    requires
        app.selected < app.items@.len(),
        app.launched(post),
        app.launch_matches(launch, args),
    ensures
        ({
            let item = app.items@[app.selected as int];
            let run = run_of(post.runs@, item.kind, item.name@);
            &&& run is Some && run->0.name@ == item.name@ && run->0.buffer@.len() == 0
                && run->0.exit_code is None && run->0.error is None
            &&& kind != item.kind || name != item.name@ ==> run_of(post.runs@, kind, name)
                == run_of(app.runs@, kind, name)
            &&& post.flash is None
            &&& post == (App { runs: post.runs, flash: None, ..app })
            &&& launch.kind == item.kind && launch.name@ == item.name@
            &&& launch.args.deep_view() == args
        }),
{
}

/// Starting a row over aborts its run where that is going on, and forgets it before the
/// launch, so that the row is never refused as running.
pub proof fn law_starting_over_forgets_the_run(app: App, res: Relaunch, post: App)
    requires
        app.relaunched(res, post),
        app.selected < app.items@.len(),
    ensures
        ({
            let item = app.items@[app.selected as int];
            let run = run_of(app.runs@, item.kind, item.name@);
            &&& res.aborted <==> run is Some && run->0.exit_code is None && run->0.error is None
            &&& res.outcome matches Err(r) ==> r@ != Refusal::AlreadyRunning && run_of(
                post.runs@,
                item.kind,
                item.name@,
            ) is None && post == (App { runs: post.runs, ..app })
            &&& res.outcome matches Ok(l) ==> l.kind == item.kind && l.name@ == item.name@
                && l.args@.len() == 0 && run_of(post.runs@, item.kind, item.name@) is Some
                && run_of(post.runs@, item.kind, item.name@)->0.buffer@.len() == 0
            &&& forall|kind: ItemKind, name: Seq<char>|
                kind != item.kind || name != item.name@ ==> #[trigger] run_of(
                    post.runs@,
                    kind,
                    name,
                ) == run_of(app.runs@, kind, name)
        }),
{
    let item = app.items@[app.selected as int];
    let mid = choose|mid: App| #[trigger]
        app.without_selected_run(mid) && match res.outcome {
            Ok(launch) => mid.launch_refusal() is None && mid.launched(post) && mid.launch_matches(
                launch,
                seq![],
            ),
            Err(r) => mid.launch_refusal() == Some(r@) && post == mid,
        };
    lemma_runs_without(app.runs@, item.kind, item.name@, item.kind, item.name@);
    assert(mid.selection() == Some(item));
    assert forall|kind: ItemKind, name: Seq<char>| kind != item.kind || name
        != item.name@ implies #[trigger] run_of(post.runs@, kind, name) == run_of(
        app.runs@,
        kind,
        name,
    ) by {
        lemma_runs_without(app.runs@, item.kind, item.name@, kind, name);
    }
    if let Ok(l) = res.outcome {
        assert(l.args.deep_view().len() == l.args@.len());
    }
}

/// The palette starts every row but services and watchers, and says so of those.
pub proof fn law_what_the_palette_starts(item: Item)
    ensures
        App::palette_refusal(item) is Some <==> item.kind == ItemKind::Service || item.kind
            == ItemKind::Watcher,
        item.kind == ItemKind::Service ==> App::palette_refusal(item) == Some(
            Refusal::NotRunnable(
                "service `"@ + item.name@ + "` can't be launched from the palette"@,
            ),
        ),
        item.kind == ItemKind::Watcher ==> App::palette_refusal(item) == Some(
            Refusal::NotRunnable(
                "watcher `"@ + item.name@ + "` can't be launched from the palette"@,
            ),
        ),
{
}

/// The question about a running row names it, offers yes first, and is about that row.
pub proof fn law_the_question_is_about_the_selected_row(app: App, post: App)
    requires
        app.selected < app.items@.len(),
        app.asked_to_restart(post),
    ensures
        ({
            let item = app.items@[app.selected as int];
            let d = post.confirm->0;
            &&& post.confirm is Some && post.mode == Mode::Confirm
            &&& d.title@ == "`"@ + item.name@ + "` is running"@ && d.body@ == "Kill and restart?"@
            &&& d.yes_focused
            &&& d.action->kind == item.kind && d.action->name@ == item.name@
            &&& post.runs == app.runs && post.selected == app.selected && post.items == app.items
        }),
{
}

/// The prompt opens for a recipe or script that forwards arguments, is about it, and is
/// empty.
pub proof fn law_the_prompt_is_for_rows_that_forward_arguments(app: App, post: App)
    requires
        app.selected < app.items@.len(),
    ensures
        ({
            let item = app.items@[app.selected as int];
            let name = item.name@;
            &&& app.accepts_args() <==> (item.kind == ItemKind::Recipe
                && app.config.commands@.contains_key(name)
                && app.config.commands@[name].forward_args) || (item.kind == ItemKind::Script
                && app.config.scripts@.contains_key(name) && app.config.scripts@[name].forward_args)
            &&& app.asked_for_args(post) ==> post.mode == Mode::ArgsPrompt && post.args_prompt
                is Some && post.args_prompt->0.item_name@ == name && post.args_prompt->0.kind
                == item.kind && post.args_prompt->0.input@.len() == 0 && post.runs == app.runs
        }),
{
}

/// The arguments that a prompt gives are the words of its text; white space, and what
/// cannot be split into words, gives none.
pub proof fn law_prompted_arguments_are_words(input: Seq<char>)
    ensures
        ({
            let words = shell::shell_words_of(input);
            let args = App::prompt_args(input);
            let blank = forall|i: int| 0 <= i < input.len() ==> text::is_space(#[trigger] input[i]);
            &&& blank || words is None ==> args.len() == 0
            &&& !blank && words is Some ==> args == words->0
        }),
{
    text::law_trimming_takes_white_space_off(input);
    let (a, b) = text::trim_bounds(input);
    if a < b {
        assert(!text::is_space(input[a]));
    }
}

/// Where a prompt or a question leads: to the first row of its kind and name, and where
/// there is none, the selection stays.
pub proof fn law_the_row_asked_about_is_selected(
    app: App,
    kind: ItemKind,
    name: Seq<char>,
    post: App,
)
    requires
        app.reselected(kind, name, post),
    ensures
        ({
            let fits = |i: int| app.items@[i].kind == kind && app.items@[i].name@ == name;
            let i = post.selected as int;
            &&& (exists|k: int| 0 <= k < app.items@.len() && #[trigger] fits(k)) ==> 0 <= i
                < app.items@.len() && fits(i) && forall|k: int| 0 <= k < i ==> !#[trigger] fits(k)
            &&& (forall|k: int| 0 <= k < app.items@.len() ==> !#[trigger] fits(k)) ==> i
                == app.selected
            &&& post == (App { selected: post.selected, ..app })
        }),
{
    let fits = |i: int| app.items@[i].kind == kind && app.items@[i].name@ == name;
    let i = post.selected as int;
    if item_position(app.items@, kind, name, i) {
        assert(fits(i));
        assert forall|k: int| 0 <= k < i implies !#[trigger] fits(k) by {
            assert(!(app.items@[k].kind == kind && app.items@[k].name@ == name));
        }
    } else if exists|k: int| 0 <= k < app.items@.len() && #[trigger] fits(k) {
        let k = choose|k: int| 0 <= k < app.items@.len() && #[trigger] fits(k);
        assert(app.items@[k].kind == kind && app.items@[k].name@ == name);
    }
}

/// A lifecycle action starts where there is a backend and no other goes on; one that
/// goes on is the reason that is given.
pub proof fn law_one_lifecycle_action_at_a_time(app: App)
    ensures
        ({
            let run = app.lifecycle_run;
            let going = run is Some && run->0.exit_code is None && run->0.error is None;
            &&& going ==> app.action_refusal() == Some(Refusal::AlreadyRunning)
            &&& !going && !app.has_backend ==> app.action_refusal() == Some(Refusal::NoExecutor)
            &&& !going && app.has_backend ==> app.action_refusal() is None
        }),
{
}

/// The title of a lifecycle run is the action, and behind it every service that it is
/// about.
pub proof fn law_action_titles_name_every_service(
    action: ServiceAction,
    services: Seq<Seq<char>>,
    last: Seq<char>,
)
    ensures
        action_label(action, seq![]) == "compose "@ + match action {
            ServiceAction::Up => "up"@,
            ServiceAction::Down => "down"@,
            ServiceAction::Stop => "stop"@,
            ServiceAction::Restart => "restart"@,
        },
        action_label(action, services.push(last)) == action_label(action, services) + " "@ + last,
{
    text::law_joined_texts_follow_each_other(services, last, " "@);
    if services.len() == 0 {
        assert(services.push(last) =~= seq![last]);
    } else {
        let head = "compose "@ + action.word_text() + " "@;
        assert(head + (text::joined(services, " "@) + " "@ + last) =~= head + text::joined(
            services,
            " "@,
        ) + " "@ + last);
    }
}

/// A lifecycle action has a fresh run under its title, and the container row is
/// selected where there is one.
pub proof fn law_a_lifecycle_action_begins(
    app: App,
    action: ServiceAction,
    services: Seq<Seq<char>>,
    post: App,
    k: int,
)
    requires
        app.action_begun(action, services, post),
        0 <= k < app.items@.len(),
        app.items@[k].kind == ItemKind::Container,
    ensures
        post.lifecycle_run is Some,
        post.lifecycle_run->0.name@ == action_label(action, services),
        post.lifecycle_run->0.buffer@.len() == 0,
        post.lifecycle_run->0.exit_code is None && post.lifecycle_run->0.error is None,
        post.selected <= k,
        app.items@[post.selected as int].kind == ItemKind::Container,
        post.runs == app.runs && post.items == app.items,
{
    assert(app.items@[k].kind == ItemKind::Container);
}

/// The run of a row stands at the last place of the list that has its kind and name.
pub proof fn law_the_run_of_a_row_stands_last(
    runs: Seq<RunEntry>,
    kind: ItemKind,
    name: Seq<char>,
    i: int,
)
    requires
        0 <= i < runs.len(),
        runs[i].kind == kind && runs[i].name@ == name,
        forall|k: int|
            i < k < runs.len() ==> !((#[trigger] runs[k]).kind == kind && runs[k].name@ == name),
    ensures
        run_at(runs, kind, name, i),
        run_of(runs, kind, name) == Some(runs[i].run),
{
    lemma_run_replaced(runs, i, runs[i], kind, name);
}

/// The model of a row and of a refusal has what they hold.
pub proof fn law_rows_and_refusals_say_their_fields(item: Item, r: LaunchRejection)
    ensures
        item.deep_view().name == item.name@ && item.deep_view().kind == item.kind,
        r is NoExecutor <==> r@ is NoExecutor,
        r is AlreadyRunning <==> r@ is AlreadyRunning,
        r matches LaunchRejection::NotRunnable(msg) ==> r@ == Refusal::NotRunnable(msg@),
{
}

} // verus!
