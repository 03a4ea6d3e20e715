//! `devcontainer.json`: where it is, and what it asks for.
use crate::paths;
use crate::paths::join_path;
use crate::text;
use crate::text::concat3;
use crate::textmap::TextMap;
use vstd::prelude::*;

verus! {

#[derive(Debug, PartialEq, Eq)]
pub enum DevcontainerConfigError {
    /// No file at any of the places tried.
    NotFound(String),
    Read { path: String, message: String },
    Parse { path: String, message: String },
    /// The container is described by a compose file.
    DockerComposeUnsupported { path: String },
    /// There is nothing to run.
    NoBuildSource { path: String },
}

/// What a [`DevcontainerConfigError`] says.
pub ghost enum SpecFault {
    NotFound(Seq<char>),
    Read { path: Seq<char>, message: Seq<char> },
    Parse { path: Seq<char>, message: Seq<char> },
    DockerComposeUnsupported { path: Seq<char> },
    NoBuildSource { path: Seq<char> },
}

impl View for DevcontainerConfigError {
    type V = SpecFault;

    open spec fn view(&self) -> SpecFault {
        match self {
            DevcontainerConfigError::NotFound(tried) => SpecFault::NotFound(tried@),
            DevcontainerConfigError::Read { path, message } => SpecFault::Read {
                path: path@,
                message: message@,
            },
            DevcontainerConfigError::Parse { path, message } => SpecFault::Parse {
                path: path@,
                message: message@,
            },
            DevcontainerConfigError::DockerComposeUnsupported { path } => {
                SpecFault::DockerComposeUnsupported { path: path@ }
            },
            DevcontainerConfigError::NoBuildSource { path } => SpecFault::NoBuildSource {
                path: path@,
            },
        }
    }
}

impl SpecFault {
    /// The error as one line.
    pub open spec fn text(self) -> Seq<char> {
        match self {
            SpecFault::NotFound(tried) => "devcontainer.json not found (tried: "@ + tried + ")"@,
            SpecFault::Read { path, message } => "failed to read "@ + path + ": "@ + message,
            SpecFault::Parse { path, message } => "failed to parse "@ + path + ": "@ + message,
            SpecFault::DockerComposeUnsupported { path } => path
                + ": `dockerComposeFile` devcontainers are not supported in ampelos v1. Use `runtime.backend = \"compose\"` in ampelos.toml and route recipes to the dev service with `in = \"<service>\"` instead."@,
            SpecFault::NoBuildSource { path } => path
                + ": neither `image` nor `build.dockerfile` is set — nothing to run"@,
        }
    }
}

impl DevcontainerConfigError {
    /// The error as one line.
    pub fn message(&self) -> (res: String)
        ensures
            res@ == self@.text(),
    {
        match self {
            DevcontainerConfigError::NotFound(tried) => concat3(
                "devcontainer.json not found (tried: ",
                tried.as_str(),
                ")",
            ),
            DevcontainerConfigError::Read { path, message } => {
                let head = concat3("failed to read ", path.as_str(), ": ");
                text::concat(head.as_str(), message.as_str())
            },
            DevcontainerConfigError::Parse { path, message } => {
                let head = concat3("failed to parse ", path.as_str(), ": ");
                text::concat(head.as_str(), message.as_str())
            },
            DevcontainerConfigError::DockerComposeUnsupported { path } => text::concat(
                path.as_str(),
                ": `dockerComposeFile` devcontainers are not supported in ampelos v1. Use `runtime.backend = \"compose\"` in ampelos.toml and route recipes to the dev service with `in = \"<service>\"` instead.",
            ),
            DevcontainerConfigError::NoBuildSource { path } => text::concat(
                path.as_str(),
                ": neither `image` nor `build.dockerfile` is set — nothing to run",
            ),
        }
    }
}

/// What a `devcontainer.json` asks for.
#[derive(Debug, PartialEq, Eq)]
pub struct DevcontainerSpec {
    /// Where it was read.
    pub source_path: String,
    pub name: Option<String>,
    pub source: ContainerSource,
    /// The project's directory inside the container.
    pub workspace_folder: Option<String>,
    /// Further arguments of `docker run`.
    pub run_args: Vec<String>,
    /// Environment of the container.
    pub container_env: TextMap<String>,
    /// Environment of every command run in it.
    pub remote_env: TextMap<String>,
    /// Absent: the image's own.
    pub remote_user: Option<String>,
}

/// What to run.
#[derive(Debug, PartialEq, Eq)]
pub enum ContainerSource {
    /// An image as it is.
    Image(String),
    /// An image to build.
    Build { dockerfile: String, context: String, args: TextMap<String> },
}

/// The fields of a `devcontainer.json` that count.
#[derive(Debug, PartialEq, Eq)]
pub struct RawSpec {
    pub name: Option<String>,
    pub image: Option<String>,
    pub build: Option<RawBuild>,
    /// Whether a compose file is named.
    pub has_compose_file: bool,
    pub workspace_folder: Option<String>,
    pub run_args: Vec<String>,
    pub container_env: TextMap<String>,
    pub remote_env: TextMap<String>,
    pub remote_user: Option<String>,
}

/// The `build` field.
#[derive(Debug, PartialEq, Eq)]
pub struct RawBuild {
    pub dockerfile: Option<String>,
    pub context: Option<String>,
    pub args: TextMap<String>,
}

/// The places where the file may be, in the order in which they are tried.
pub open spec fn places(root: Seq<char>, over: Option<Seq<char>>) -> Seq<Seq<char>> {
    match over {
        Some(p) => seq![paths::joined_path(root, p)],
        None => seq![
            paths::joined_path(root, ".devcontainer/devcontainer.json"@),
            paths::joined_path(root, ".devcontainer.json"@),
        ],
    }
}

/// The places where the file may be, in the order in which they are tried: the
/// configured one, or the two usual ones.
pub fn candidates(project_root: &str, override_path: Option<&str>) -> (res: Vec<String>)
    ensures
        res.deep_view() == places(project_root@, override_path.deep_view()),
{
    let out = match override_path {
        Some(p) => vec![join_path(project_root, p)],
        None => vec![
            join_path(project_root, ".devcontainer/devcontainer.json"),
            join_path(project_root, ".devcontainer.json"),
        ],
    };
    assert(out.deep_view() =~= places(project_root@, override_path.deep_view()));
    out
}

/// What is said when no place has the file.
pub open spec fn tried_text(root: Seq<char>, over: Option<Seq<char>>) -> Seq<char> {
    match over {
        Some(p) => paths::joined_path(root, p),
        None => ".devcontainer/devcontainer.json, .devcontainer.json"@,
    }
}

/// What an image is built from, relative to the directory of the file.
pub open spec fn build_source(
    parent: Seq<char>,
    build: RawBuild,
    source: ContainerSource,
) -> bool {
    source matches ContainerSource::Build { dockerfile, context, args } && {
        &&& dockerfile@ == paths::joined_path(
            parent,
            match build.dockerfile {
                Some(d) => d@,
                None => "Dockerfile"@,
            },
        )
        &&& context@ == match build.context {
            Some(c) => paths::joined_path(parent, c@),
            None => parent,
        }
        &&& args == build.args
    }
}

/// The directory of the file.
pub open spec fn spec_dir(path: Seq<char>) -> Seq<char> {
    match paths::parent_of(path) {
        Some(p) => p,
        None => ""@,
    }
}

/// Why the fields are refused: a compose file, or nothing to run.
pub open spec fn raw_fault(path: Seq<char>, raw: RawSpec) -> Option<SpecFault> {
    if raw.has_compose_file {
        Some(SpecFault::DockerComposeUnsupported { path })
    } else if raw.image is None && raw.build is None {
        Some(SpecFault::NoBuildSource { path })
    } else {
        None
    }
}

/// Whether `spec` is what the accepted fields ask for: an image wins over a build.
pub open spec fn spec_of(path: Seq<char>, raw: RawSpec, spec: DevcontainerSpec) -> bool {
    &&& spec.source_path@ == path
    &&& spec.name == raw.name
    &&& match raw.image {
        Some(image) => spec.source == ContainerSource::Image(image),
        None => build_source(spec_dir(path), raw.build->0, spec.source),
    }
    &&& spec.workspace_folder == raw.workspace_folder
    &&& spec.run_args == raw.run_args
    &&& spec.container_env == raw.container_env
    &&& spec.remote_env == raw.remote_env
    &&& spec.remote_user == raw.remote_user
}

impl DevcontainerSpec {
    /// Where the file is: the first of the candidates that `is_file` marks.
    pub fn discover(project_root: &str, override_path: Option<&str>, is_file: &Vec<bool>) -> (res:
        Result<String, DevcontainerConfigError>)
        requires
            is_file@.len() == places(project_root@, override_path.deep_view()).len(),
        ensures
            ({
                let tried = places(project_root@, override_path.deep_view());
                match res {
                    Ok(found) => if is_file@[0] {
                        found@ == tried[0]
                    } else {
                        tried.len() == 2 && is_file@[1] && found@ == tried[1]
                    },
                    Err(e) => !is_file@[0] && (tried.len() == 2 ==> !is_file@[1]) && e@
                        == SpecFault::NotFound(
                        tried_text(project_root@, override_path.deep_view()),
                    ),
                }
            }),
    {
        let tried = candidates(project_root, override_path);
        let ghost all = tried.deep_view();
        assert(all.len() == tried@.len());
        assert(all[0] == tried@[0]@);
        if is_file[0] {
            return Ok(tried[0].clone());
        }
        match override_path {
            Some(_) => Err(DevcontainerConfigError::NotFound(tried[0].clone())),
            None => {
                assert(all[1] == tried@[1]@);
                if is_file[1] {
                    return Ok(tried[1].clone());
                }
                Err(
                    DevcontainerConfigError::NotFound(
                        ".devcontainer/devcontainer.json, .devcontainer.json".to_owned(),
                    ),
                )
            },
        }
    }

    /// Takes the fields that the text of the file at `path` parsed to.
    pub fn from_str(path: &str, parsed: Result<RawSpec, String>) -> (res: Result<
        Self,
        DevcontainerConfigError,
    >)
        ensures
            match parsed {
                Err(message) => res is Err && res->Err_0@ == (SpecFault::Parse {
                    path: path@,
                    message: message@,
                }),
                Ok(raw) => match res {
                    Ok(spec) => raw_fault(path@, raw) is None && spec_of(path@, raw, spec),
                    Err(e) => raw_fault(path@, raw) == Some(e@),
                },
            },
    {
        let raw = match parsed {
            Ok(raw) => raw,
            Err(message) => {
                return Err(DevcontainerConfigError::Parse { path: path.to_owned(), message });
            },
        };
        let RawSpec {
            name,
            image,
            build,
            has_compose_file,
            workspace_folder,
            run_args,
            container_env,
            remote_env,
            remote_user,
        } = raw;
        if has_compose_file {
            return Err(
                DevcontainerConfigError::DockerComposeUnsupported { path: path.to_owned() },
            );
        }
        let parent = match paths::parent(path) {
            Some(p) => p,
            None => "".to_owned(),
        };
        let source = match (image, build) {
            (Some(image), _) => ContainerSource::Image(image),
            (None, Some(build)) => {
                let RawBuild { dockerfile, context, args } = build;
                let dockerfile = match dockerfile {
                    Some(d) => join_path(parent.as_str(), d.as_str()),
                    None => join_path(parent.as_str(), "Dockerfile"),
                };
                let context = match context {
                    Some(c) => join_path(parent.as_str(), c.as_str()),
                    None => parent,
                };
                ContainerSource::Build { dockerfile, context, args }
            },
            (None, None) => {
                return Err(DevcontainerConfigError::NoBuildSource { path: path.to_owned() });
            },
        };
        Ok(
            DevcontainerSpec {
                source_path: path.to_owned(),
                name,
                source,
                workspace_folder,
                run_args,
                container_env,
                remote_env,
                remote_user,
            },
        )
    }
}

/// The file is looked for at the configured place alone, where there is one, else in
/// its directory and then beside it.
pub proof fn law_where_the_file_is_looked_for(root: Seq<char>, over: Option<Seq<char>>)
    ensures
        over is Some ==> places(root, over) == seq![paths::joined_path(root, over->0)],
        over is None ==> places(root, over) == seq![
            paths::joined_path(root, ".devcontainer/devcontainer.json"@),
            paths::joined_path(root, ".devcontainer.json"@),
        ],
{
}

/// Fields are refused exactly where they name a compose file, or neither an image nor a
/// build.
pub proof fn law_fields_must_say_what_to_run(path: Seq<char>, raw: RawSpec)
    ensures
        raw_fault(path, raw) is None <==> !raw.has_compose_file && (raw.image is Some || raw.build
            is Some),
        raw.has_compose_file ==> raw_fault(path, raw)->0 == (SpecFault::DockerComposeUnsupported {
            path,
        }),
        !raw.has_compose_file && raw.image is None && raw.build is None ==> raw_fault(path, raw)->0
            == (SpecFault::NoBuildSource { path }),
{
}

/// What is accepted is taken over as it stands. An image wins over a build, and a build
/// is made of a dockerfile and a context beside the file, unless they are named.
pub proof fn law_accepted_fields_are_taken_over(
    path: Seq<char>,
    raw: RawSpec,
    spec: DevcontainerSpec,
)
    requires
        spec_of(path, raw, spec),
        raw.image is Some || raw.build is Some,
    ensures
        spec.source_path@ == path,
        spec.name == raw.name,
        spec.workspace_folder == raw.workspace_folder,
        spec.run_args == raw.run_args,
        spec.container_env == raw.container_env,
        spec.remote_env == raw.remote_env,
        spec.remote_user == raw.remote_user,
        raw.image is Some ==> spec.source == ContainerSource::Image(raw.image->0),
        raw.image is None ==> {
            let dir = match paths::parent_of(path) {
                Some(p) => p,
                None => ""@,
            };
            let build = raw.build->0;
            &&& spec.source is Build
            &&& spec.source->args == build.args
            &&& build.dockerfile is Some ==> spec.source->dockerfile@ == paths::joined_path(
                dir,
                build.dockerfile->0@,
            )
            &&& build.dockerfile is None ==> spec.source->dockerfile@ == paths::joined_path(
                dir,
                "Dockerfile"@,
            )
            &&& build.context is Some ==> spec.source->context@ == paths::joined_path(
                dir,
                build.context->0@,
            )
            &&& build.context is None ==> spec.source->context@ == dir
        },
{
}

/// A missing file is reported by the place that was asked for, or by both usual places.
pub proof fn law_missing_files_are_reported(root: Seq<char>, over: Option<Seq<char>>)
    ensures
        over is Some ==> tried_text(root, over) == paths::joined_path(root, over->0),
        over is None ==> tried_text(root, over)
            == ".devcontainer/devcontainer.json, .devcontainer.json"@,
{
}

/// An error tells what it holds.
pub proof fn law_errors_tell_what_they_hold(e: DevcontainerConfigError)
    ensures
        e matches DevcontainerConfigError::NotFound(x) ==> e@ == SpecFault::NotFound(x@),
        e matches DevcontainerConfigError::Read { path, message } ==> e@ == (SpecFault::Read {
            path: path@,
            message: message@,
        }),
        e matches DevcontainerConfigError::Parse { path, message } ==> e@ == (SpecFault::Parse {
            path: path@,
            message: message@,
        }),
        e matches DevcontainerConfigError::DockerComposeUnsupported { path } ==> e@ == (SpecFault::DockerComposeUnsupported {
            path: path@,
        }),
        e matches DevcontainerConfigError::NoBuildSource { path } ==> e@ == (SpecFault::NoBuildSource {
            path: path@,
        }),
{
}

/// What is said of each error.
pub proof fn law_specification_errors_are_told(e: SpecFault)
    ensures
        e matches SpecFault::NotFound(tried) ==> e.text() == "devcontainer.json not found (tried: "@
            + tried + ")"@,
        e matches SpecFault::Read { path, message } ==> e.text() == "failed to read "@ + path
            + ": "@ + message,
        e matches SpecFault::Parse { path, message } ==> e.text() == "failed to parse "@ + path
            + ": "@ + message,
        e matches SpecFault::NoBuildSource { path } ==> e.text() == path
            + ": neither `image` nor `build.dockerfile` is set — nothing to run"@,
        e matches SpecFault::DockerComposeUnsupported { path } ==> path.is_prefix_of(e.text()),
{
    if let SpecFault::DockerComposeUnsupported { path } = e {
        assert(e.text().subrange(0, path.len() as int) =~= path);
    }
}

} // verus!
