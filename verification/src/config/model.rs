//! The domain model of the project's configuration file.
//!
//! The types are value objects: built from the file, validated, then read by
//! the rest of the crate.
use crate::config::agents;
use crate::config::agents::AgentsConfig;
use crate::config::scripts::ScriptCommand;
use crate::text::concat3;
use crate::textmap::TextMap;
use std::borrow::Cow;
use vstd::prelude::*;

verus! {

/// Top-level configuration of a project.
#[derive(Debug, PartialEq, Eq)]
pub struct Config {
    pub project: ProjectConfig,
    /// Container runtime: which backend to talk to, and passthrough toggles.
    pub runtime: RuntimeConfig,
    /// Environment variable defaults and resolution rules.
    pub env: TextMap<EnvSpec>,
    pub env_files: EnvFilesConfig,
    /// Recipes by name.
    pub commands: TextMap<Recipe>,
    pub ui: UiConfig,
    /// Hooks by stage name.
    pub hooks: HooksConfig,
    /// Per-worktree isolation.
    pub worktrees: WorktreesConfig,
    /// Diff view settings.
    pub diff: DiffConfig,
    /// Services that no container backend manages.
    pub services: ServicesConfig,
    /// Scripts by name.
    pub scripts: TextMap<ScriptCommand>,
    /// Agent instruction sources.
    pub agents: AgentsConfig,
    /// Devcontainer integration.
    pub devcontainer: DevcontainerConfig,
}

impl Default for Config {
    fn default() -> (res: Self)
        ensures
            res.project.name is None && res.project.description is None,
            res.runtime.backend == Backend::Compose && res.runtime.default_service is None
                && res.runtime.compose_passthrough && res.runtime.service_passthrough,
            res.env@ == Map::<Seq<char>, EnvSpec>::empty(),
            res.env_files.files@.len() == 0,
            res.commands@ == Map::<Seq<char>, Recipe>::empty(),
            res.ui.default is None && res.ui.panes@.len() == 0,
            res.hooks.stages@ == Map::<Seq<char>, Vec<String>>::empty(),
            res.worktrees.is_default(),
            res.diff.base is None,
            res.services.custom@.len() == 0 && res.services.systemd@.len() == 0,
            res.scripts@ == Map::<Seq<char>, ScriptCommand>::empty(),
            res.agents.install_with_setup && res.agents.sources@.len() == 0,
            !res.devcontainer.enabled && res.devcontainer.path is None,
    {
        Config {
            project: ProjectConfig { name: None, description: None },
            runtime: RuntimeConfig::default(),
            env: TextMap::new(),
            env_files: EnvFilesConfig { files: Vec::new() },
            commands: TextMap::new(),
            ui: UiConfig { default: None, panes: Vec::new() },
            hooks: HooksConfig { stages: TextMap::new() },
            worktrees: WorktreesConfig::default(),
            diff: DiffConfig { base: None },
            services: ServicesConfig { custom: Vec::new(), systemd: Vec::new() },
            scripts: TextMap::new(),
            agents: AgentsConfig::default(),
            devcontainer: DevcontainerConfig { enabled: false, path: None },
        }
    }
}

/// Devcontainer integration toggle, off by default.
#[derive(Debug, PartialEq, Eq)]
pub struct DevcontainerConfig {
    /// Master switch.
    pub enabled: bool,
    /// Override of the detected `devcontainer.json` path.
    pub path: Option<String>,
}

/// Worktree isolation configuration.
#[derive(Debug, PartialEq, Eq)]
pub struct WorktreesConfig {
    /// Range cap for hash-based offsets.
    pub modulus: u32,
    /// Extra hash seed; the project name when empty.
    pub seed: String,
    /// Give each worktree a compose project of its own.
    pub isolate_compose: bool,
    /// Offsets pinned by slug.
    pub assign: TextMap<u32>,
    /// Dotenv file that the resolved environment is written to.
    pub dotenv: Option<String>,
}

impl WorktreesConfig {
    /// The configuration of a project without a `[worktrees]` table.
    pub open spec fn is_default(&self) -> bool {
        &&& self.modulus == 1000
        &&& self.seed@.len() == 0
        &&& self.isolate_compose
        &&& self.assign@ == Map::<Seq<char>, u32>::empty()
        &&& self.dotenv is None
    }
}

impl Default for WorktreesConfig {
    fn default() -> (res: Self)
        ensures
            res.is_default(),
    {
        WorktreesConfig {
            modulus: 1000,
            seed: String::new(),
            isolate_compose: true,
            assign: TextMap::new(),
            dotenv: None,
        }
    }
}

/// Whether one of the first `n` custom services is named `name`.
pub open spec fn custom_named(services: Seq<CustomService>, n: int, name: Seq<char>) -> bool {
    exists|i: int| 0 <= i < n && (#[trigger] services[i]).name@ == name
}

/// Whether one of the first `n` systemd services is named `name`.
pub open spec fn systemd_named(services: Seq<SystemdService>, n: int, name: Seq<char>) -> bool {
    exists|i: int| 0 <= i < n && (#[trigger] services[i]).name@ == name
}

/// The complaint about a service name that was declared before.
pub open spec fn duplicate_service(name: Seq<char>, section: Seq<char>) -> Seq<char> {
    "duplicate service name `"@ + name + "` (previously declared in "@ + section + ")"@
}

/// The first repeated name among the first `n` custom services.
pub open spec fn custom_error(services: Seq<CustomService>, n: nat) -> Option<Seq<char>>
    decreases n,
{
    if n == 0 {
        None
    } else {
        match custom_error(services, (n - 1) as nat) {
            Some(e) => Some(e),
            None => {
                let name = services[n - 1].name@;
                if custom_named(services, n - 1, name) {
                    Some(duplicate_service(name, "services.custom"@))
                } else {
                    None
                }
            },
        }
    }
}

/// The first name among the first `n` systemd services that a custom service or
/// an earlier systemd service has.
pub open spec fn systemd_error(
    custom: Seq<CustomService>,
    systemd: Seq<SystemdService>,
    n: nat,
) -> Option<Seq<char>>
    decreases n,
{
    if n == 0 {
        None
    } else {
        match systemd_error(custom, systemd, (n - 1) as nat) {
            Some(e) => Some(e),
            None => {
                let name = systemd[n - 1].name@;
                if custom_named(custom, custom.len() as int, name) {
                    Some(duplicate_service(name, "services.custom"@))
                } else if systemd_named(systemd, n - 1, name) {
                    Some(duplicate_service(name, "services.systemd"@))
                } else {
                    None
                }
            },
        }
    }
}

proof fn lemma_custom_error_stays(services: Seq<CustomService>, i: nat, n: nat)
    requires
        i <= n,
        custom_error(services, i) is Some,
    ensures
        custom_error(services, n) == custom_error(services, i),
    decreases n,
{
    if i < n {
        lemma_custom_error_stays(services, i, (n - 1) as nat);
    }
}

proof fn lemma_systemd_error_stays(
    custom: Seq<CustomService>,
    systemd: Seq<SystemdService>,
    i: nat,
    n: nat,
)
    requires
        i <= n,
        systemd_error(custom, systemd, i) is Some,
    ensures
        systemd_error(custom, systemd, n) == systemd_error(custom, systemd, i),
    decreases n,
{
    if i < n {
        lemma_systemd_error_stays(custom, systemd, i, (n - 1) as nat);
    }
}

fn duplicate_service_text(name: &str, section: &str) -> (res: String)
    ensures
        res@ == duplicate_service(name@, section@),
{
    let mut out = concat3("duplicate service name `", name, "` (previously declared in ");
    out.append(section);
    out.append(")");
    out
}

impl Config {
    /// The seed of the worktree offset hash.
    pub open spec fn seed(&self) -> Seq<char> {
        if self.worktrees.seed@.len() > 0 {
            self.worktrees.seed@
        } else {
            match self.project.name {
                Some(name) => name@,
                None => Seq::empty(),
            }
        }
    }

    /// What validation complains about first.
    pub open spec fn error(&self) -> Option<Seq<char>> {
        let custom = self.services.custom@;
        let systemd = self.services.systemd@;
        match custom_error(custom, custom.len()) {
            Some(e) => Some(e),
            None => match systemd_error(custom, systemd, systemd.len()) {
                Some(e) => Some(e),
                None => agents::sources_error(self.agents.sources@, self.agents.sources@.len()),
            },
        }
    }

    /// Hash seed for worktree offsets: the `[worktrees]` seed when there is
    /// one, else the project name, else nothing.
    pub fn resolved_seed(&self) -> (res: &str)
        ensures
            res@ == self.seed(),
    {
        if !self.worktrees.seed.as_str().is_empty() {
            return self.worktrees.seed.as_str();
        }
        match &self.project.name {
            Some(name) => name.as_str(),
            None => {
                proof {
                    reveal_strlit("");
                    assert(""@ =~= Seq::<char>::empty());
                }
                ""
            },
        }
    }

    fn custom_has(&self, n: usize, name: &str) -> (res: bool)
        requires
            n <= self.services.custom@.len(),
        ensures
            res == custom_named(self.services.custom@, n as int, name@),
    {
        let mut i: usize = 0;
        while i < n
            invariant
                i <= n <= self.services.custom@.len(),
                !custom_named(self.services.custom@, i as int, name@),
            decreases n - i,
        {
            if *self.services.custom[i].name.as_str() == *name {
                return true;
            }
            i += 1;
        }
        false
    }

    fn systemd_has(&self, n: usize, name: &str) -> (res: bool)
        requires
            n <= self.services.systemd@.len(),
        ensures
            res == systemd_named(self.services.systemd@, n as int, name@),
    {
        let mut i: usize = 0;
        while i < n
            invariant
                i <= n <= self.services.systemd@.len(),
                !systemd_named(self.services.systemd@, i as int, name@),
            decreases n - i,
        {
            if *self.services.systemd[i].name.as_str() == *name {
                return true;
            }
            i += 1;
        }
        false
    }

    /// Structural validation: service names are unique across custom and systemd
    /// services, and the agent sources are well formed.
    pub fn validate(&self) -> (res: Result<(), String>)
        ensures
            match res {
                Ok(_) => self.error() is None,
                Err(e) => self.error() == Some(e@),
            },
    {
        let ghost custom = self.services.custom@;
        let ghost systemd = self.services.systemd@;
        let mut i: usize = 0;
        while i < self.services.custom.len()
            invariant
                custom == self.services.custom@,
                i <= custom.len(),
                custom_error(custom, i as nat) is None,
            decreases custom.len() - i,
        {
            let name = self.services.custom[i].name.as_str();
            if self.custom_has(i, name) {
                proof {
                    lemma_custom_error_stays(custom, (i + 1) as nat, custom.len());
                }
                return Err(duplicate_service_text(name, "services.custom"));
            }
            i += 1;
        }
        let mut j: usize = 0;
        while j < self.services.systemd.len()
            invariant
                custom == self.services.custom@,
                systemd == self.services.systemd@,
                j <= systemd.len(),
                custom_error(custom, custom.len()) is None,
                systemd_error(custom, systemd, j as nat) is None,
            decreases systemd.len() - j,
        {
            let name = self.services.systemd[j].name.as_str();
            if self.custom_has(self.services.custom.len(), name) {
                proof {
                    lemma_systemd_error_stays(custom, systemd, (j + 1) as nat, systemd.len());
                }
                return Err(duplicate_service_text(name, "services.custom"));
            }
            if self.systemd_has(j, name) {
                proof {
                    lemma_systemd_error_stays(custom, systemd, (j + 1) as nat, systemd.len());
                }
                return Err(duplicate_service_text(name, "services.systemd"));
            }
            j += 1;
        }
        self.agents.validate()
    }
}

/// In a valid configuration no custom service shares its name with another
/// custom service.
pub proof fn law_valid_custom_names_are_distinct(config: Config, i: int, j: int)
    requires
        config.error() is None,
        0 <= i < j < config.services.custom@.len(),
    ensures
        config.services.custom@[i].name@ != config.services.custom@[j].name@,
{
    let custom = config.services.custom@;
    if custom_error(custom, j as nat) is Some {
        lemma_custom_error_stays(custom, j as nat, custom.len());
    }
    if custom_error(custom, (j + 1) as nat) is Some {
        lemma_custom_error_stays(custom, (j + 1) as nat, custom.len());
    }
}

/// In a valid configuration no systemd service shares its name with a custom
/// service or with another systemd service.
pub proof fn law_valid_systemd_names_are_distinct(config: Config, i: int, j: int)
    requires
        config.error() is None,
        0 <= j < config.services.systemd@.len(),
    ensures
        0 <= i < config.services.custom@.len() ==> config.services.custom@[i].name@
            != config.services.systemd@[j].name@,
        0 <= i < j ==> config.services.systemd@[i].name@ != config.services.systemd@[j].name@,
{
    let custom = config.services.custom@;
    let systemd = config.services.systemd@;
    if systemd_error(custom, systemd, j as nat) is Some {
        lemma_systemd_error_stays(custom, systemd, j as nat, systemd.len());
    }
    if systemd_error(custom, systemd, (j + 1) as nat) is Some {
        lemma_systemd_error_stays(custom, systemd, (j + 1) as nat, systemd.len());
    }
}

/// Services that no container backend manages.
#[derive(Debug, PartialEq, Eq)]
pub struct ServicesConfig {
    pub custom: Vec<CustomService>,
    pub systemd: Vec<SystemdService>,
}

/// A service driven by the user's own shell commands.
#[derive(Debug, PartialEq, Eq)]
pub struct CustomService {
    pub name: String,
    pub desc: Option<String>,
    /// Exit code zero means running.
    pub status: String,
    pub start: String,
    pub stop: String,
    /// Absent: stop, then start.
    pub restart: Option<String>,
    /// Long-running command whose output the service pane shows.
    pub logs: Option<String>,
}

impl CustomService {
    /// The command that restarts the service.
    pub open spec fn restart_text(&self) -> Seq<char> {
        match self.restart {
            Some(r) => r@,
            None => self.stop@ + " && "@ + self.start@,
        }
    }

    /// The restart command: the declared one, or stop and then start.
    pub fn restart_cmd(&self) -> (res: Cow<'_, str>)
        ensures
            res@ == self.restart_text(),
    {
        match &self.restart {
            Some(r) => Cow::Borrowed(r.as_str()),
            None => Cow::Owned(concat3(self.stop.as_str(), " && ", self.start.as_str())),
        }
    }
}

/// A service that systemd controls.
#[derive(Debug, PartialEq, Eq)]
pub struct SystemdService {
    pub name: String,
    pub desc: Option<String>,
    /// The unit name.
    pub unit: String,
    pub scope: SystemdScope,
}

/// Whether a systemd service runs in the user or the system instance.
#[derive(Debug, Clone, Copy, PartialEq, Eq, Structural)]
pub enum SystemdScope {
    User,
    System,
}

impl Default for SystemdScope {
    fn default() -> (res: Self)
        ensures
            res == SystemdScope::User,
    {
        SystemdScope::User
    }
}

/// Names of the recipes and scripts to run, by hook stage.
#[derive(Debug, PartialEq, Eq)]
pub struct HooksConfig {
    pub stages: TextMap<Vec<String>>,
}

impl HooksConfig {
    /// The names declared for `stage`, in order; none for an undeclared stage.
    pub fn for_stage(&self, stage: &str) -> (res: &[String])
        ensures
            self.stages@.contains_key(stage@) ==> res@ == self.stages@[stage@]@,
            !self.stages@.contains_key(stage@) ==> res@.len() == 0,
    {
        match self.stages.get(stage) {
            Some(v) => v.as_slice(),
            None => &[],
        }
    }

    /// The declared stages in dictionary order.
    pub fn declared_stages(&self) -> (res: Vec<&str>)
        ensures
            res.deep_view() == self.stages.keys(),
    {
        let mut out: Vec<&str> = Vec::new();
        let mut i: usize = 0;
        while i < self.stages.len()
            invariant
                i <= self.stages.keys().len(),
                out.deep_view() == self.stages.keys().take(i as int),
            decreases self.stages.keys().len() - i,
        {
            let ghost before = out.deep_view();
            out.push(self.stages.key_at(i).as_str());
            assert(out.deep_view() =~= before.push(self.stages.keys()[i as int]));
            assert(self.stages.keys().take(i + 1) =~= before.push(self.stages.keys()[i as int]));
            i += 1;
        }
        assert(self.stages.keys().take(i as int) =~= self.stages.keys());
        out
    }
}

#[derive(Debug, PartialEq, Eq)]
pub struct ProjectConfig {
    pub name: Option<String>,
    pub description: Option<String>,
}

/// Diff view configuration.
#[derive(Debug, PartialEq, Eq)]
pub struct DiffConfig {
    /// Branch that the diff view compares against. Absent: detected.
    pub base: Option<String>,
}

/// Container runtime configuration.
#[derive(Debug, PartialEq, Eq)]
pub struct RuntimeConfig {
    pub backend: Backend,
    pub default_service: Option<String>,
    pub compose_passthrough: bool,
    pub service_passthrough: bool,
}

impl Default for RuntimeConfig {
    fn default() -> (res: Self)
        ensures
            res.backend == Backend::Compose,
            res.default_service is None,
            res.compose_passthrough,
            res.service_passthrough,
    {
        RuntimeConfig {
            backend: Backend::Compose,
            default_service: None,
            compose_passthrough: true,
            service_passthrough: true,
        }
    }
}

#[derive(Debug, Clone, Copy, PartialEq, Eq, Structural)]
pub enum Backend {
    Compose,
    Docker,
    Podman,
    /// No container runtime at all.
    NoRuntime,
}

impl Default for Backend {
    fn default() -> (res: Self)
        ensures
            res == Backend::Compose,
    {
        Backend::Compose
    }
}

/// How one environment variable gets its value.
#[derive(Debug, PartialEq, Eq)]
pub struct EnvSpec {
    pub value: Option<String>,
    pub default: Option<String>,
    pub from_command: Option<String>,
    pub required: bool,
    /// Integer that `offset` is added to.
    pub base: Option<String>,
    /// Variable whose value is the integer offset.
    pub offset: Option<String>,
}

#[derive(Debug, PartialEq, Eq)]
pub struct EnvFilesConfig {
    pub files: Vec<String>,
}

/// A single recipe.
#[derive(Debug, PartialEq, Eq)]
pub struct Recipe {
    pub desc: Option<String>,
    /// What to run.
    pub run: Run,
    /// Service to run inside. Absent: the host.
    pub service: Option<String>,
    pub tty: bool,
    /// Environment overrides, applied last.
    pub env: TextMap<String>,
    /// Recipes that must succeed first.
    pub needs: Vec<String>,
    /// Whether further arguments are appended to the command.
    pub forward_args: bool,
    /// Whether the steps run side by side.
    pub parallel: bool,
    /// Named overrides.
    pub profile: TextMap<RecipeProfile>,
}

/// Overrides applied on top of a [`Recipe`]; an absent field leaves the recipe's
/// value as it is.
#[derive(Debug, PartialEq, Eq)]
pub struct RecipeProfile {
    pub run: Option<Run>,
    pub service: Option<String>,
    pub tty: Option<bool>,
    /// Merged on top of the recipe's environment.
    pub env: TextMap<String>,
    pub needs: Option<Vec<String>>,
    pub forward_args: Option<bool>,
    pub parallel: Option<bool>,
}

/// What a [`Recipe`] says.
pub ghost struct RecipeModel {
    pub desc: Option<Seq<char>>,
    pub run: RunModel,
    pub service: Option<Seq<char>>,
    pub tty: bool,
    pub env: Map<Seq<char>, Seq<char>>,
    pub needs: Seq<Seq<char>>,
    pub forward_args: bool,
    pub parallel: bool,
    pub profile: Map<Seq<char>, ProfileModel>,
}

/// What a [`RecipeProfile`] says.
pub ghost struct ProfileModel {
    pub run: Option<RunModel>,
    pub service: Option<Seq<char>>,
    pub tty: Option<bool>,
    pub env: Map<Seq<char>, Seq<char>>,
    pub needs: Option<Seq<Seq<char>>>,
    pub forward_args: Option<bool>,
    pub parallel: Option<bool>,
}

/// What a [`Run`] says.
pub ghost enum RunModel {
    Single(Seq<char>),
    Steps(Seq<Seq<char>>),
}

/// The entries of an environment map, as text.
pub open spec fn env_model(env: Map<Seq<char>, String>) -> Map<Seq<char>, Seq<char>> {
    env.map_values(|v: String| v@)
}

/// The value of `over` when it has one, else `base`.
pub open spec fn overlay<A>(base: A, over: Option<A>) -> A {
    match over {
        Some(a) => a,
        None => base,
    }
}

impl RecipeModel {
    /// The recipe with the fields that `p` sets replaced and its environment
    /// entries added on top.
    pub open spec fn overlaid(self, p: ProfileModel) -> RecipeModel {
        RecipeModel {
            run: overlay(self.run, p.run),
            service: if p.service is Some {
                p.service
            } else {
                self.service
            },
            tty: overlay(self.tty, p.tty),
            env: self.env.union_prefer_right(p.env),
            needs: overlay(self.needs, p.needs),
            forward_args: overlay(self.forward_args, p.forward_args),
            parallel: overlay(self.parallel, p.parallel),
            ..self
        }
    }

    /// The effective recipe under the profile of that name, if it has one.
    pub open spec fn under(self, profile: Option<Seq<char>>) -> RecipeModel {
        match profile {
            Some(name) => if self.profile.contains_key(name) {
                self.overlaid(self.profile[name])
            } else {
                self
            },
            None => self,
        }
    }
}

impl View for Run {
    type V = RunModel;

    open spec fn view(&self) -> RunModel {
        match self {
            Run::Single(s) => RunModel::Single(s@),
            Run::Steps(v) => RunModel::Steps(v.deep_view()),
        }
    }
}

impl View for RecipeProfile {
    type V = ProfileModel;

    open spec fn view(&self) -> ProfileModel {
        ProfileModel {
            run: match self.run {
                Some(r) => Some(r@),
                None => None,
            },
            service: self.service.deep_view(),
            tty: self.tty,
            env: env_model(self.env@),
            needs: self.needs.deep_view(),
            forward_args: self.forward_args,
            parallel: self.parallel,
        }
    }
}

impl View for Recipe {
    type V = RecipeModel;

    open spec fn view(&self) -> RecipeModel {
        RecipeModel {
            desc: self.desc.deep_view(),
            run: self.run@,
            service: self.service.deep_view(),
            tty: self.tty,
            env: env_model(self.env@),
            needs: self.needs.deep_view(),
            forward_args: self.forward_args,
            parallel: self.parallel,
            profile: self.profile@.map_values(|p: RecipeProfile| p@),
        }
    }
}

/// A copy of a list of strings.
pub fn copy_strings(v: &Vec<String>) -> (res: Vec<String>)
    ensures
        res@ == v@,
        res.deep_view() == v.deep_view(),
{
    let res = v.clone();
    assert(res@ =~= v@);
    res
}

/// A copy of an environment map.
pub fn copy_env(env: &TextMap<String>) -> (res: TextMap<String>)
    ensures
        res@ == env@,
        res.keys() == env.keys(),
{
    let res = env.clone();
    assert(res@ =~= env@);
    res
}

impl Clone for Run {
    fn clone(&self) -> (res: Self)
        ensures
            res@ == self@,
    {
        match self {
            Run::Single(s) => Run::Single(s.clone()),
            Run::Steps(v) => Run::Steps(copy_strings(v)),
        }
    }
}

impl Clone for RecipeProfile {
    fn clone(&self) -> (res: Self)
        ensures
            res@ == self@,
    {
        RecipeProfile {
            run: match &self.run {
                Some(r) => Some(r.clone()),
                None => None,
            },
            service: match &self.service {
                Some(s) => Some(s.clone()),
                None => None,
            },
            tty: self.tty,
            env: copy_env(&self.env),
            needs: match &self.needs {
                Some(n) => Some(copy_strings(n)),
                None => None,
            },
            forward_args: self.forward_args,
            parallel: self.parallel,
        }
    }
}

impl Clone for Recipe {
    fn clone(&self) -> (res: Self)
        ensures
            res@ == self@,
    {
        let profile = self.profile.clone();
        proof {
            let f = |p: RecipeProfile| p@;
            assert(profile@.map_values(f) =~= self.profile@.map_values(f));
        }
        Recipe {
            desc: match &self.desc {
                Some(s) => Some(s.clone()),
                None => None,
            },
            run: self.run.clone(),
            service: match &self.service {
                Some(s) => Some(s.clone()),
                None => None,
            },
            tty: self.tty,
            env: copy_env(&self.env),
            needs: copy_strings(&self.needs),
            forward_args: self.forward_args,
            parallel: self.parallel,
            profile,
        }
    }
}

/// Gives `base` every entry of `over`, in place of the entries it had.
pub fn merge_env(base: &mut TextMap<String>, over: &TextMap<String>)
    ensures
        final(base)@ == old(base)@.union_prefer_right(over@),
{
    let ghost before = base@;
    let n: usize = over.len();
    let mut i: usize = 0;
    while i < n
        invariant
            n == over.keys().len(),
            i <= n,
            forall|k: Seq<char>| #![auto] over@.contains_key(k) <==> over.keys().contains(k),
            forall|k: Seq<char>| #[trigger]
                base@.contains_key(k) <==> before.contains_key(k) || over.keys().take(
                    i as int,
                ).contains(k),
            forall|k: Seq<char>| #[trigger]
                base@.contains_key(k) ==> base@[k] == (if over.keys().take(i as int).contains(k) {
                    over@[k]
                } else {
                    before[k]
                }),
        decreases n - i,
    {
        let key = over.key_at(i).clone();
        let val = over.value_at(i).clone();
        let ghost keys = over.keys();
        proof {
            assert(keys.take(i + 1) =~= keys.take(i as int).push(keys[i as int]));
            assert forall|k: Seq<char>|
                keys.take(i + 1).contains(k) <==> keys.take(i as int).contains(k) || k
                    == keys[i as int] by {
                if keys.take(i as int).contains(k) {
                    let j = keys.take(i as int).index_of(k);
                    assert(keys.take(i + 1)[j] == k);
                }
                if k == keys[i as int] {
                    assert(keys.take(i + 1)[i as int] == k);
                }
            }
        }
        base.insert(key, val);
        i += 1;
    }
    proof {
        assert(over.keys().take(n as int) =~= over.keys());
        assert(base@ =~= before.union_prefer_right(over@));
    }
}

impl Recipe {
    /// The effective recipe under the named profile. Without a name, or with one
    /// that the recipe does not define, it is the recipe itself.
    pub fn with_profile(&self, profile_name: Option<&str>) -> (res: Cow<'_, Recipe>)
        ensures
            res@ == self@.under(profile_name.deep_view()),
    {
        let name = match profile_name {
            Some(n) => n,
            None => return Cow::Borrowed(self),
        };
        let profile = match self.profile.get(name) {
            Some(p) => p,
            None => return Cow::Borrowed(self),
        };
        let mut merged = self.clone();
        if let Some(run) = &profile.run {
            merged.run = run.clone();
        }
        if let Some(service) = &profile.service {
            merged.service = Some(service.clone());
        }
        if let Some(tty) = profile.tty {
            merged.tty = tty;
        }
        let ghost env0 = merged.env@;
        merge_env(&mut merged.env, &profile.env);
        proof {
            let f = |v: String| v@;
            assert(env0.union_prefer_right(profile.env@).map_values(f)
                =~= env0.map_values(f).union_prefer_right(profile.env@.map_values(f)));
        }
        if let Some(needs) = &profile.needs {
            merged.needs = copy_strings(needs);
        }
        if let Some(forward_args) = profile.forward_args {
            merged.forward_args = forward_args;
        }
        if let Some(parallel) = profile.parallel {
            merged.parallel = parallel;
        }
        Cow::Owned(merged)
    }
}

/// Without a profile, or with an unknown one, a recipe is left as it is.
pub proof fn law_unknown_profile_changes_nothing(recipe: RecipeModel, profile: Option<Seq<char>>)
    requires
        profile is Some ==> !recipe.profile.contains_key(profile->0),
    ensures
        recipe.under(profile) == recipe,
{
}

/// The environment of a profile wins over that of its recipe, and what the
/// profile does not mention stays.
pub proof fn law_profile_env_wins(recipe: RecipeModel, name: Seq<char>, key: Seq<char>)
    requires
        recipe.profile.contains_key(name),
    ensures
        ({
            let env = recipe.under(Some(name)).env;
            let over = recipe.profile[name].env;
            &&& over.contains_key(key) ==> env.contains_key(key) && env[key] == over[key]
            &&& !over.contains_key(key) ==> env.contains_key(key) == recipe.env.contains_key(key)
            &&& !over.contains_key(key) && recipe.env.contains_key(key) ==> env[key]
                == recipe.env[key]
        }),
{
}

/// Under a profile that a recipe defines, every field that the profile sets has the
/// profile's value, and every other the recipe's; the description and the profiles
/// themselves stay.
pub proof fn law_profile_fields_win(recipe: Recipe, name: Seq<char>)
    requires
        recipe.profile@.contains_key(name),
    ensures
        ({
            let under = recipe@.under(Some(name));
            let p = recipe.profile@[name];
            &&& p.run is Some ==> under.run == p.run->0@
            &&& p.run is None ==> under.run == recipe.run@
            &&& p.service is Some ==> under.service == Some(p.service->0@)
            &&& p.service is None ==> under.service == recipe.service.deep_view()
            &&& p.tty is Some ==> under.tty == p.tty->0
            &&& p.tty is None ==> under.tty == recipe.tty
            &&& p.needs is Some ==> under.needs == p.needs->0.deep_view()
            &&& p.needs is None ==> under.needs == recipe.needs.deep_view()
            &&& p.forward_args is Some ==> under.forward_args == p.forward_args->0
            &&& p.forward_args is None ==> under.forward_args == recipe.forward_args
            &&& p.parallel is Some ==> under.parallel == p.parallel->0
            &&& p.parallel is None ==> under.parallel == recipe.parallel
            &&& under.desc == recipe.desc.deep_view()
            &&& under.profile == recipe@.profile
        }),
{
}

/// A recipe and a profile of it say what their fields say: the texts of a command and
/// its steps, each variable's value, and each override.
pub proof fn law_recipes_say_their_fields(recipe: Recipe, name: Seq<char>, key: Seq<char>)
    ensures
        recipe.run is Single ==> recipe@.run == RunModel::Single(recipe.run->Single_0@),
        recipe.run is Steps ==> recipe@.run == RunModel::Steps(recipe.run->Steps_0.deep_view()),
        recipe@.env.contains_key(key) == recipe.env@.contains_key(key),
        recipe.env@.contains_key(key) ==> recipe@.env[key] == recipe.env@[key]@,
        recipe@.profile.contains_key(name) == recipe.profile@.contains_key(name),
        recipe.profile@.contains_key(name) ==> {
            let p = recipe.profile@[name];
            &&& recipe@.profile[name].env.contains_key(key) == p.env@.contains_key(key)
            &&& p.env@.contains_key(key) ==> recipe@.profile[name].env[key] == p.env@[key]@
        },
{
}

/// Either a single command or a sequence of steps.
#[derive(Debug, PartialEq, Eq)]
pub enum Run {
    Single(String),
    Steps(Vec<String>),
}

impl Run {
    /// The number of steps; a single command counts as one.
    pub fn len(&self) -> (res: usize)
        ensures
            res == match self@ {
                RunModel::Single(_) => 1nat,
                RunModel::Steps(v) => v.len(),
            },
    {
        match self {
            Run::Single(_) => 1,
            Run::Steps(v) => v.len(),
        }
    }

    /// Whether there is no step.
    pub fn is_empty(&self) -> (res: bool)
        ensures
            res == match self@ {
                RunModel::Single(_) => false,
                RunModel::Steps(v) => v.len() == 0,
            },
    {
        match self {
            Run::Single(_) => false,
            Run::Steps(v) => v.len() == 0,
        }
    }
}

#[derive(Debug, PartialEq, Eq)]
pub struct UiConfig {
    pub default: Option<String>,
    pub panes: Vec<UiPane>,
}

/// A pane that the dashboard shows from the start.
#[derive(Debug, PartialEq, Eq)]
pub enum UiPane {
    Service { service: String, key: Option<String> },
    Command { name: String, key: Option<String>, restart_on: Vec<String> },
    Watcher { glob: Vec<String>, on_change: String, debounce_ms: u64, key: Option<String> },
}

/// A configuration is valid exactly where no two services share a name, custom or
/// systemd, and the agent sources are in order.
pub proof fn law_valid_configurations(config: Config)
    ensures
        ({
            let custom = config.services.custom@;
            let systemd = config.services.systemd@;
            config.error() is None <==> {
                &&& forall|i: int, j: int|
                    0 <= i < j < custom.len() ==> (#[trigger] custom[i]).name@ != (
                    #[trigger] custom[j]).name@
                &&& forall|i: int, j: int|
                    0 <= i < custom.len() && 0 <= j < systemd.len() ==> (
                    #[trigger] custom[i]).name@ != (#[trigger] systemd[j]).name@
                &&& forall|i: int, j: int|
                    0 <= i < j < systemd.len() ==> (#[trigger] systemd[i]).name@ != (
                    #[trigger] systemd[j]).name@
                &&& agents::sources_error(
                    config.agents.sources@,
                    config.agents.sources@.len(),
                ) is None
            }
        }),
{
    let custom = config.services.custom@;
    let systemd = config.services.systemd@;
    lemma_custom_error(custom, custom.len());
    lemma_systemd_error(custom, systemd, systemd.len());
}

proof fn lemma_custom_error(services: Seq<CustomService>, n: nat)
    requires
        n <= services.len(),
    ensures
        custom_error(services, n) is None <==> forall|i: int, j: int|
            0 <= i < j < n ==> (#[trigger] services[i]).name@ != (#[trigger] services[j]).name@,
        custom_error(services, n) is Some ==> exists|j: int|
            0 < j < n && custom_named(services, j, services[j].name@) && custom_error(services, n)
                == Some(
                duplicate_service((#[trigger] services[j]).name@, "services.custom"@),
            ),
    decreases n,
{
    if n > 0 {
        let m = (n - 1) as nat;
        lemma_custom_error(services, m);
        let name = services[m as int].name@;
        if custom_error(services, m) is None {
            if custom_named(services, m as int, name) {
                let i = choose|i: int| 0 <= i < m && (#[trigger] services[i]).name@ == name;
                assert(services[i].name@ == services[m as int].name@);
            } else {
                assert forall|i: int, j: int| 0 <= i < j < n implies (
                #[trigger] services[i]).name@ != (#[trigger] services[j]).name@ by {
                    if j == m {
                        assert(!custom_named(services, m as int, name));
                    }
                }
            }
        }
    }
}

proof fn lemma_systemd_error(custom: Seq<CustomService>, systemd: Seq<SystemdService>, n: nat)
    requires
        n <= systemd.len(),
    ensures
        systemd_error(custom, systemd, n) is None <==> {
            &&& forall|i: int, j: int|
                0 <= i < custom.len() && 0 <= j < n ==> (#[trigger] custom[i]).name@ != (
                #[trigger] systemd[j]).name@
            &&& forall|i: int, j: int|
                0 <= i < j < n ==> (#[trigger] systemd[i]).name@ != (#[trigger] systemd[j]).name@
        },
    decreases n,
{
    if n > 0 {
        let m = (n - 1) as nat;
        lemma_systemd_error(custom, systemd, m);
        let name = systemd[m as int].name@;
        if systemd_error(custom, systemd, m) is None {
            if custom_named(custom, custom.len() as int, name) {
                let i = choose|i: int| 0 <= i < custom.len() && (#[trigger] custom[i]).name@ == name;
                assert(custom[i].name@ == systemd[m as int].name@);
            } else if systemd_named(systemd, m as int, name) {
                let i = choose|i: int| 0 <= i < m && (#[trigger] systemd[i]).name@ == name;
                assert(systemd[i].name@ == systemd[m as int].name@);
            } else {
                assert forall|i: int, j: int| 0 <= i < custom.len() && 0 <= j < n implies (
                #[trigger] custom[i]).name@ != (#[trigger] systemd[j]).name@ by {
                    if j == m {
                        assert(!custom_named(custom, custom.len() as int, name));
                    }
                }
                assert forall|i: int, j: int| 0 <= i < j < n implies (#[trigger] systemd[i]).name@
                    != (#[trigger] systemd[j]).name@ by {
                    if j == m {
                        assert(!systemd_named(systemd, m as int, name));
                    }
                }
            }
        }
    }
}

/// A service that declares no command to restart it is stopped and then started.
pub proof fn law_restarting_stops_and_starts(service: CustomService)
    ensures
        service.restart is Some ==> service.restart_text() == service.restart->0@,
        service.restart is None ==> service.stop@.is_prefix_of(service.restart_text())
            && service.restart_text() == service.stop@ + " && "@ + service.start@,
{
    if service.restart is None {
        assert(service.restart_text().take(service.stop@.len() as int) =~= service.stop@);
    }
}

/// The seed is that of the worktrees where they have one, else the project's name.
pub proof fn law_the_seed_falls_back_to_the_name(config: Config)
    ensures
        config.worktrees.seed@.len() > 0 ==> config.seed() == config.worktrees.seed@,
        config.worktrees.seed@.len() == 0 && config.project.name is Some ==> config.seed()
            == config.project.name->0@,
        config.worktrees.seed@.len() == 0 && config.project.name is None
            ==> config.seed().len() == 0,
{
}

/// A project without a table for worktrees has a thousand offsets, no seed of its own,
/// isolates compose, and pins nothing.
pub proof fn law_worktrees_without_a_table(w: WorktreesConfig, slug: Seq<char>)
    requires
        w.is_default(),
    ensures
        w.modulus == 1000 && w.seed@.len() == 0 && w.isolate_compose && w.dotenv is None,
        !w.assign@.contains_key(slug),
{
}

/// The model of a recipe has each field under its own name, and so has that of a
/// profile.
pub proof fn law_recipes_and_profiles_say_their_fields(r: Recipe, p: RecipeProfile)
    ensures
        r@.desc == r.desc.deep_view() && r@.service == r.service.deep_view(),
        r@.run == r.run@ && r@.tty == r.tty && r@.needs == r.needs.deep_view(),
        r@.forward_args == r.forward_args && r@.parallel == r.parallel,
        p@.run is Some <==> p.run is Some,
        p.run is Some ==> p@.run->0 == p.run->0@,
        p@.service == p.service.deep_view() && p@.tty == p.tty,
        p@.needs == p.needs.deep_view() && p@.forward_args == p.forward_args,
        p@.parallel == p.parallel,
{
}

/// A name that is taken is reported with the section that has it: the custom services
/// come before the systemd ones.
pub proof fn law_taken_names_are_reported(
    custom: Seq<CustomService>,
    systemd: Seq<SystemdService>,
    n: nat,
    name: Seq<char>,
    section: Seq<char>,
)
    ensures
        duplicate_service(name, section) == "duplicate service name `"@ + name
            + "` (previously declared in "@ + section + ")"@,
        n < custom.len() && custom_error(custom, n) is Some ==> custom_error(custom, n + 1)
            == custom_error(custom, n),
        n < custom.len() && custom_error(custom, n) is None ==> custom_error(custom, n + 1) == if (
        exists|k: int| 0 <= k < n && (#[trigger] custom[k]).name@ == custom[n as int].name@) {
            Some(duplicate_service(custom[n as int].name@, "services.custom"@))
        } else {
            None
        },
        n < systemd.len() && systemd_error(custom, systemd, n) is Some ==> systemd_error(
            custom,
            systemd,
            n + 1,
        ) == systemd_error(custom, systemd, n),
        n < systemd.len() && systemd_error(custom, systemd, n) is None ==> systemd_error(
            custom,
            systemd,
            n + 1,
        ) == if (exists|k: int|
            0 <= k < custom.len() && (#[trigger] custom[k]).name@ == systemd[n as int].name@) {
            Some(duplicate_service(systemd[n as int].name@, "services.custom"@))
        } else if (exists|k: int|
            0 <= k < n && (#[trigger] systemd[k]).name@ == systemd[n as int].name@) {
            Some(duplicate_service(systemd[n as int].name@, "services.systemd"@))
        } else {
            None
        },
{
}

} // verus!
