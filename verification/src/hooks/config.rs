//! The pre-commit configuration and the hooks that upstream repositories offer.
use crate::config::model::copy_strings;
use crate::hooks::error;
use crate::hooks::error::HookError;
use crate::text;
use vstd::prelude::*;

verus! {

/// A pre-commit configuration.
#[derive(Debug, PartialEq, Eq)]
pub struct PreCommitConfig {
    pub repos: Vec<Repo>,
    pub default_stages: Vec<String>,
}

/// A repository and the hooks taken from it.
#[derive(Debug, PartialEq, Eq)]
pub struct Repo {
    pub repo: String,
    pub rev: Option<String>,
    pub hooks: Vec<HookSpec>,
}

impl Repo {
    /// Whether the hooks are defined in the configuration itself.
    pub fn is_local(&self) -> (res: bool)
        ensures
            res == (self.repo@ == "local"@),
    {
        *self.repo.as_str() == *"local"
    }

    /// Whether the hooks are those built into pre-commit.
    pub fn is_meta(&self) -> (res: bool)
        ensures
            res == (self.repo@ == "meta"@),
    {
        *self.repo.as_str() == *"meta"
    }
}

/// A hook as an upstream repository offers it.
#[derive(Debug, PartialEq, Eq)]
pub struct UpstreamHook {
    pub id: String,
    pub name: Option<String>,
    pub language: Option<HookLanguage>,
    pub entry: Option<String>,
    pub args: Vec<String>,
    pub files: Option<String>,
    pub exclude: Option<String>,
    pub pass_filenames: Option<bool>,
    pub stages: Vec<String>,
    pub always_run: Option<bool>,
}

/// A hook as the configuration asks for it.
#[derive(Debug, PartialEq, Eq)]
pub struct HookSpec {
    pub id: String,
    pub name: Option<String>,
    pub language: HookLanguage,
    /// The command line.
    pub entry: Option<String>,
    pub args: Vec<String>,
    /// A regular expression that staged files have to match.
    pub files: Option<String>,
    /// A regular expression that they must not match.
    pub exclude: Option<String>,
    /// Whether the matching files are passed to the command.
    pub pass_filenames: bool,
    pub stages: Vec<String>,
    /// Whether the hook runs even if no file matches.
    pub always_run: bool,
    /// Service to run inside. Absent: the workspace.
    pub service: Option<String>,
}

/// What a [`HookSpec`] says.
pub ghost struct HookModel {
    pub id: Seq<char>,
    pub name: Option<Seq<char>>,
    pub language: HookLanguage,
    pub entry: Option<Seq<char>>,
    pub args: Seq<Seq<char>>,
    pub files: Option<Seq<char>>,
    pub exclude: Option<Seq<char>>,
    pub pass_filenames: bool,
    pub stages: Seq<Seq<char>>,
    pub always_run: bool,
    pub service: Option<Seq<char>>,
}

impl View for HookSpec {
    type V = HookModel;

    open spec fn view(&self) -> HookModel {
        HookModel {
            id: self.id@,
            name: self.name.deep_view(),
            language: self.language,
            entry: self.entry.deep_view(),
            args: self.args.deep_view(),
            files: self.files.deep_view(),
            exclude: self.exclude.deep_view(),
            pass_filenames: self.pass_filenames,
            stages: self.stages.deep_view(),
            always_run: self.always_run,
            service: self.service.deep_view(),
        }
    }
}

/// The language that a hook is written in.
#[derive(Debug, Clone, Copy, PartialEq, Eq, Structural)]
pub enum HookLanguage {
    System,
    Script,
    Python,
    Node,
    Ruby,
    Golang,
    Rust,
    Docker,
    DockerImage,
    Pygrep,
    Fail,
    Other,
}

impl HookLanguage {
    /// Whether a hook in this language needs no toolchain of its own.
    pub open spec fn native(self) -> bool {
        self == HookLanguage::System || self == HookLanguage::Script
    }

    /// Whether a hook in this language needs no toolchain of its own.
    pub fn is_native(&self) -> (res: bool)
        ensures
            res == self.native(),
    {
        matches!(self, HookLanguage::System | HookLanguage::Script)
    }

    /// The name that messages use.
    pub open spec fn label(self) -> Seq<char> {
        match self {
            HookLanguage::System => "System"@,
            HookLanguage::Script => "Script"@,
            HookLanguage::Python => "Python"@,
            HookLanguage::Node => "Node"@,
            HookLanguage::Ruby => "Ruby"@,
            HookLanguage::Golang => "Golang"@,
            HookLanguage::Rust => "Rust"@,
            HookLanguage::Docker => "Docker"@,
            HookLanguage::DockerImage => "DockerImage"@,
            HookLanguage::Pygrep => "Pygrep"@,
            HookLanguage::Fail => "Fail"@,
            HookLanguage::Other => "Other"@,
        }
    }

    /// The name that messages use.
    pub fn name(self) -> (res: &'static str)
        ensures
            res@ == self.label(),
    {
        match self {
            HookLanguage::System => "System",
            HookLanguage::Script => "Script",
            HookLanguage::Python => "Python",
            HookLanguage::Node => "Node",
            HookLanguage::Ruby => "Ruby",
            HookLanguage::Golang => "Golang",
            HookLanguage::Rust => "Rust",
            HookLanguage::Docker => "Docker",
            HookLanguage::DockerImage => "DockerImage",
            HookLanguage::Pygrep => "Pygrep",
            HookLanguage::Fail => "Fail",
            HookLanguage::Other => "Other",
        }
    }
}

impl HookModel {
    /// Whether the hook runs at a stage: one of its own stages, or, when it names
    /// none, one of the defaults; no defaults means every stage.
    pub open spec fn runs_at(self, stage: Seq<char>, defaults: Seq<Seq<char>>) -> bool {
        if self.stages.len() > 0 {
            self.stages.contains(stage)
        } else {
            defaults.len() == 0 || defaults.contains(stage)
        }
    }
}

impl HookSpec {
    /// Whether the hook runs at a stage.
    pub fn applies_to_stage(&self, stage: &str, default_stages: &[String]) -> (res: bool)
        ensures
            res == self@.runs_at(stage@, default_stages.deep_view()),
    {
        if self.stages.len() == 0 {
            return default_stages.len() == 0 || text::any_is(default_stages, stage);
        }
        text::any_is(self.stages.as_slice(), stage)
    }

    /// A copy of the hook.
    pub fn copied(&self) -> (res: HookSpec)
        ensures
            res@ == self@,
    {
        HookSpec {
            id: self.id.clone(),
            name: self.name.clone(),
            language: self.language,
            entry: self.entry.clone(),
            args: copy_strings(&self.args),
            files: self.files.clone(),
            exclude: self.exclude.clone(),
            pass_filenames: self.pass_filenames,
            stages: copy_strings(&self.stages),
            always_run: self.always_run,
            service: self.service.clone(),
        }
    }
}

/// The first of two that is there.
pub open spec fn either<T>(a: Option<T>, b: Option<T>) -> Option<T> {
    match a {
        Some(x) => Some(x),
        None => b,
    }
}

/// The first of two lists that is not empty.
pub open spec fn filled<T>(a: Seq<T>, b: Seq<T>) -> Seq<T> {
    if a.len() > 0 {
        a
    } else {
        b
    }
}

/// The hook that is run: what the configuration sets, and upstream's word for the
/// rest. Upstream decides the language, and may turn off passing file names.
pub open spec fn merged(user: HookSpec, upstream: UpstreamHook) -> HookModel {
    HookModel {
        id: user.id@,
        name: either(user.name.deep_view(), upstream.name.deep_view()),
        language: match upstream.language {
            Some(l) => l,
            None => user.language,
        },
        entry: either(user.entry.deep_view(), upstream.entry.deep_view()),
        args: filled(user.args.deep_view(), upstream.args.deep_view()),
        files: either(user.files.deep_view(), upstream.files.deep_view()),
        exclude: either(user.exclude.deep_view(), upstream.exclude.deep_view()),
        pass_filenames: user.pass_filenames && upstream.pass_filenames != Some(false),
        stages: filled(user.stages.deep_view(), upstream.stages.deep_view()),
        always_run: user.always_run || upstream.always_run == Some(true),
        service: user.service.deep_view(),
    }
}

/// Why the merged hook cannot run: its language needs a toolchain, or there is no
/// command.
pub open spec fn merge_fault(user: HookSpec, upstream: UpstreamHook) -> Option<error::HookFault> {
    let m = merged(user, upstream);
    if !m.language.native() {
        Some(
            error::HookFault::UnsupportedLanguage { hook: user.id@, language: m.language.label() },
        )
    } else if m.entry is None {
        Some(error::HookFault::EntryMissing { hook: user.id@ })
    } else {
        None
    }
}

fn first_of(a: &Option<String>, b: &Option<String>) -> (res: Option<String>)
    ensures
        res.deep_view() == either(a.deep_view(), b.deep_view()),
{
    match a {
        Some(x) => Some(x.clone()),
        None => match b {
            Some(y) => Some(y.clone()),
            None => None,
        },
    }
}

fn filled_of(a: &Vec<String>, b: &Vec<String>) -> (res: Vec<String>)
    ensures
        res.deep_view() == filled(a.deep_view(), b.deep_view()),
{
    assert(a@.len() == a.deep_view().len());
    if a.len() == 0 {
        copy_strings(b)
    } else {
        copy_strings(a)
    }
}

/// Fills in what the configuration leaves open from the upstream definition.
pub fn merge_with_upstream(user: &HookSpec, upstream: &UpstreamHook) -> (res: Result<
    HookSpec,
    HookError,
>)
    ensures
        match res {
            Ok(h) => merge_fault(*user, *upstream) is None && h@ == merged(*user, *upstream),
            Err(e) => merge_fault(*user, *upstream) == Some(e@),
        },
{
    let language = match upstream.language {
        Some(l) => l,
        None => user.language,
    };
    if !language.is_native() {
        return Err(
            HookError::UnsupportedLanguage {
                hook: user.id.clone(),
                language: language.name().to_owned(),
            },
        );
    }
    let entry = first_of(&user.entry, &upstream.entry);
    if entry.is_none() {
        return Err(HookError::EntryMissing { hook: user.id.clone() });
    }
    let pass_filenames = if !user.pass_filenames {
        false
    } else {
        match upstream.pass_filenames {
            Some(p) => p,
            None => true,
        }
    };
    let always_run = user.always_run || match upstream.always_run {
        Some(a) => a,
        None => false,
    };
    Ok(
        HookSpec {
            id: user.id.clone(),
            name: first_of(&user.name, &upstream.name),
            language,
            entry,
            args: filled_of(&user.args, &upstream.args),
            files: first_of(&user.files, &upstream.files),
            exclude: first_of(&user.exclude, &upstream.exclude),
            pass_filenames,
            stages: filled_of(&user.stages, &upstream.stages),
            always_run,
            service: user.service.clone(),
        },
    )
}

/// What the configuration sets wins: no field that it fills, other than the
/// language, takes upstream's value.
pub proof fn law_configuration_wins(user: HookSpec, upstream: UpstreamHook)
    ensures
        ({
            let m = merged(user, upstream);
            let u = user@;
            &&& m.id == u.id
            &&& u.name is Some ==> m.name == u.name
            &&& u.entry is Some ==> m.entry == u.entry
            &&& u.args.len() > 0 ==> m.args == u.args
            &&& u.files is Some ==> m.files == u.files
            &&& u.exclude is Some ==> m.exclude == u.exclude
            &&& u.stages.len() > 0 ==> m.stages == u.stages
            &&& !u.pass_filenames ==> !m.pass_filenames
            &&& u.always_run ==> m.always_run
            &&& m.service == u.service
        }),
{
}

/// What the configuration leaves open is upstream's word; a list counts as left open
/// where it is empty. Upstream decides the language where it names one, and either
/// side can turn off passing file names, or make the hook always run.
pub proof fn law_upstream_fills_the_rest(user: HookSpec, upstream: UpstreamHook)
    ensures
        ({
            let m = merged(user, upstream);
            &&& user.name is None ==> m.name == upstream.name.deep_view()
            &&& user.entry is None ==> m.entry == upstream.entry.deep_view()
            &&& user.args@.len() == 0 ==> m.args == upstream.args.deep_view()
            &&& user.files is None ==> m.files == upstream.files.deep_view()
            &&& user.exclude is None ==> m.exclude == upstream.exclude.deep_view()
            &&& user.stages@.len() == 0 ==> m.stages == upstream.stages.deep_view()
            &&& upstream.language is Some ==> m.language == upstream.language->0
            &&& upstream.language is None ==> m.language == user.language
            &&& m.pass_filenames <==> user.pass_filenames && upstream.pass_filenames
                != Some(false)
            &&& m.always_run <==> user.always_run || upstream.always_run == Some(true)
        }),
{
    assert(user.args.deep_view().len() == user.args@.len());
    assert(user.stages.deep_view().len() == user.stages@.len());
}

/// A merged hook can run exactly where its language needs no toolchain and one side
/// gives it a command; a language that needs one is reported before a missing command.
pub proof fn law_only_native_hooks_with_a_command_run(user: HookSpec, upstream: UpstreamHook)
    ensures
        ({
            let language = match upstream.language {
                Some(l) => l,
                None => user.language,
            };
            let native = language == HookLanguage::System || language == HookLanguage::Script;
            let fault = merge_fault(user, upstream);
            &&& fault is None <==> native && (user.entry is Some || upstream.entry is Some)
            &&& fault is Some && native ==> fault->0 == (error::HookFault::EntryMissing {
                hook: user.id@,
            })
            &&& !native ==> fault->0 == (error::HookFault::UnsupportedLanguage {
                hook: user.id@,
                language: language.label(),
            })
        }),
{
}

/// Languages are told apart by the name that messages use.
pub proof fn law_language_names_differ(a: HookLanguage, b: HookLanguage)
    requires
        a.label() == b.label(),
    ensures
        a == b,
{
    reveal_strlit("System");
    reveal_strlit("Script");
    reveal_strlit("Python");
    reveal_strlit("Node");
    reveal_strlit("Ruby");
    reveal_strlit("Golang");
    reveal_strlit("Rust");
    reveal_strlit("Docker");
    reveal_strlit("DockerImage");
    reveal_strlit("Pygrep");
    reveal_strlit("Fail");
    reveal_strlit("Other");
    let (x, y) = (a.label(), b.label());
    assert(x.len() == y.len());
    assert(x[0] == y[0] && x[1] == y[1] && x[2] == y[2] && x[3] == y[3]);
}

/// The model of a hook has each field under its own name.
pub proof fn law_hooks_say_their_fields(h: HookSpec)
    ensures
        h@.id == h.id@ && h@.name == h.name.deep_view() && h@.language == h.language,
        h@.entry == h.entry.deep_view() && h@.args == h.args.deep_view(),
        h@.files == h.files.deep_view() && h@.exclude == h.exclude.deep_view(),
        h@.pass_filenames == h.pass_filenames && h@.always_run == h.always_run,
        h@.stages == h.stages.deep_view() && h@.service == h.service.deep_view(),
{
}

} // verus!
