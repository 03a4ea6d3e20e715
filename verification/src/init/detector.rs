//! What detectors look at and what they contribute.
use crate::text::is_listed;
use vstd::prelude::*;

verus! {

/// What is known of a project.
#[derive(Debug, PartialEq, Eq)]
pub struct Facts {
    /// The looked-for paths that exist, relative to the project.
    pub present: Vec<String>,
    /// The text of `Cargo.toml`, where it can be read.
    pub cargo_toml: Option<String>,
}

impl Facts {
    /// Whether a path exists.
    pub open spec fn has_path(&self, path: Seq<char>) -> bool {
        self.present.deep_view().contains(path)
    }

    /// Whether a path exists.
    pub fn has(&self, path: &str) -> (res: bool)
        ensures
            res == self.has_path(path@),
    {
        is_listed(&self.present, path)
    }
}

/// What a detector contributes.
#[derive(Debug, PartialEq, Eq)]
pub struct Finding {
    /// The ecosystem.
    pub ecosystem: &'static str,
    /// The tool chosen within it.
    pub tool: Option<String>,
    pub fragments: Vec<Fragment>,
    /// What to tell the user.
    pub notes: Vec<String>,
}

/// A piece of the configuration.
#[derive(Debug, PartialEq, Eq)]
pub enum Fragment {
    /// The `runtime` section.
    Runtime {
        backend: &'static str,
        default_service: Option<String>,
        compose_passthrough: bool,
        service_passthrough: bool,
    },
    /// The `devcontainer` section.
    Devcontainer { path: String },
    /// One of the environment files.
    EnvFile(String),
    /// A suggested command.
    Command(CommandFragment),
}

/// A suggested command.
#[derive(Debug, PartialEq, Eq)]
pub struct CommandFragment {
    pub name: String,
    pub desc: String,
    pub run: RunSpec,
    pub in_service: Option<String>,
    pub tty: Option<bool>,
    pub forward_args: Option<bool>,
    pub needs: Vec<String>,
}

/// What a command runs.
#[derive(Debug, PartialEq, Eq)]
pub enum RunSpec {
    Single(String),
    Steps(Vec<String>),
}

/// What a [`Finding`] says.
pub ghost struct FindingModel {
    pub ecosystem: Seq<char>,
    pub tool: Option<Seq<char>>,
    pub fragments: Seq<FragmentModel>,
    pub notes: Seq<Seq<char>>,
}

/// What a [`Fragment`] says.
pub ghost enum FragmentModel {
    Runtime {
        backend: Seq<char>,
        default_service: Option<Seq<char>>,
        compose_passthrough: bool,
        service_passthrough: bool,
    },
    Devcontainer { path: Seq<char> },
    EnvFile(Seq<char>),
    Command(CommandModel),
}

/// What a [`CommandFragment`] says.
pub ghost struct CommandModel {
    pub name: Seq<char>,
    pub desc: Seq<char>,
    pub run: StepsModel,
    pub in_service: Option<Seq<char>>,
    pub tty: Option<bool>,
    pub forward_args: Option<bool>,
    pub needs: Seq<Seq<char>>,
}

/// What a [`RunSpec`] says.
pub ghost enum StepsModel {
    Single(Seq<char>),
    Steps(Seq<Seq<char>>),
}

impl DeepView for Finding {
    type V = FindingModel;

    open spec fn deep_view(&self) -> FindingModel {
        FindingModel {
            ecosystem: self.ecosystem@,
            tool: self.tool.deep_view(),
            fragments: self.fragments.deep_view(),
            notes: self.notes.deep_view(),
        }
    }
}

impl DeepView for Fragment {
    type V = FragmentModel;

    open spec fn deep_view(&self) -> FragmentModel {
        match self {
            Fragment::Runtime {
                backend,
                default_service,
                compose_passthrough,
                service_passthrough,
            } => FragmentModel::Runtime {
                backend: backend@,
                default_service: default_service.deep_view(),
                compose_passthrough: *compose_passthrough,
                service_passthrough: *service_passthrough,
            },
            Fragment::Devcontainer { path } => FragmentModel::Devcontainer { path: path@ },
            Fragment::EnvFile(path) => FragmentModel::EnvFile(path@),
            Fragment::Command(c) => FragmentModel::Command(c.deep_view()),
        }
    }
}

impl DeepView for CommandFragment {
    type V = CommandModel;

    open spec fn deep_view(&self) -> CommandModel {
        CommandModel {
            name: self.name@,
            desc: self.desc@,
            run: self.run.deep_view(),
            in_service: self.in_service.deep_view(),
            tty: self.tty,
            forward_args: self.forward_args,
            needs: self.needs.deep_view(),
        }
    }
}

impl DeepView for RunSpec {
    type V = StepsModel;

    open spec fn deep_view(&self) -> StepsModel {
        match self {
            RunSpec::Single(s) => StepsModel::Single(s@),
            RunSpec::Steps(steps) => StepsModel::Steps(steps.deep_view()),
        }
    }
}

/// A command of one line.
pub open spec fn one_line(name: Seq<char>, desc: Seq<char>, run: Seq<char>) -> CommandModel {
    CommandModel {
        name,
        desc,
        run: StepsModel::Single(run),
        in_service: None,
        tty: None,
        forward_args: None,
        needs: seq![],
    }
}

impl CommandModel {
    /// The command with further arguments appended.
    pub open spec fn forwarding(self) -> CommandModel {
        CommandModel { forward_args: Some(true), ..self }
    }

    /// The command with a terminal.
    pub open spec fn interactive(self) -> CommandModel {
        CommandModel { tty: Some(true), ..self }
    }

    /// The command as a fragment.
    pub open spec fn fragment(self) -> FragmentModel {
        FragmentModel::Command(self)
    }
}

impl CommandFragment {
    /// A command of one line.
    pub fn shell(name: &str, desc: &str, run: &str) -> (res: Self)
        ensures
            res.deep_view() == one_line(name@, desc@, run@),
    {
        let res = CommandFragment {
            name: name.to_owned(),
            desc: desc.to_owned(),
            run: RunSpec::Single(run.to_owned()),
            in_service: None,
            tty: None,
            forward_args: None,
            needs: Vec::new(),
        };
        assert(res.needs.deep_view() =~= Seq::<Seq<char>>::empty());
        res
    }

    /// Appends further arguments to the command.
    pub fn with_forward_args(self) -> (res: Self)
        ensures
            res.deep_view() == self.deep_view().forwarding(),
    {
        let mut res = self;
        res.forward_args = Some(true);
        res
    }

    /// Gives the command a terminal.
    pub fn with_tty(self) -> (res: Self)
        ensures
            res.deep_view() == self.deep_view().interactive(),
    {
        let mut res = self;
        res.tty = Some(true);
        res
    }
}

/// A detector of one signal of a project.
pub trait Detector {
    /// What the detector contributes for a project.
    spec fn finds(&self, facts: Facts) -> Option<FindingModel>;

    /// Looks at a project and says what it contributes, if anything.
    fn detect(&self, facts: &Facts) -> (res: Option<Finding>)
        ensures
            res.deep_view() == self.finds(*facts),
    ;
}

/// The model of a finding, of a command and of a fragment has what they hold.
pub proof fn law_findings_say_their_fields(f: Finding, c: CommandFragment, g: Fragment, r: RunSpec)
    ensures
        f.deep_view().ecosystem == f.ecosystem@ && f.deep_view().tool == f.tool.deep_view(),
        f.deep_view().fragments == f.fragments.deep_view(),
        f.deep_view().notes == f.notes.deep_view(),
        c.deep_view().name == c.name@ && c.deep_view().desc == c.desc@,
        c.deep_view().run == c.run.deep_view() && c.deep_view().needs == c.needs.deep_view(),
        c.deep_view().in_service == c.in_service.deep_view(),
        c.deep_view().tty == c.tty && c.deep_view().forward_args == c.forward_args,
        g matches Fragment::Devcontainer { path } ==> g.deep_view() == (FragmentModel::Devcontainer {
            path: path@,
        }),
        g matches Fragment::EnvFile(path) ==> g.deep_view() == FragmentModel::EnvFile(path@),
        g matches Fragment::Command(x) ==> g.deep_view() == FragmentModel::Command(x.deep_view()),
        g matches Fragment::Runtime {
            backend,
            default_service,
            compose_passthrough,
            service_passthrough,
        } ==> g.deep_view() == (FragmentModel::Runtime {
            backend: backend@,
            default_service: default_service.deep_view(),
            compose_passthrough,
            service_passthrough,
        }),
        r matches RunSpec::Single(s) ==> r.deep_view() == StepsModel::Single(s@),
        r matches RunSpec::Steps(s) ==> r.deep_view() == StepsModel::Steps(s.deep_view()),
{
}

} // verus!
