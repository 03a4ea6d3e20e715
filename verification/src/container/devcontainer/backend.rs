//! The container that a `devcontainer.json` describes, and the `docker` commands
//! that bring it up and run things in it.
use crate::container::devcontainer::config::{ContainerSource, DevcontainerSpec};
use crate::container::devcontainer::digest;
use crate::container::devcontainer::digest::{hex_encode, sha256};
use crate::container::registry;
use crate::container::{BackendError, ExecOptions, ServiceStatus};
use crate::paths;
use crate::text;
use crate::text::{concat, concat3};
use crate::textmap::TextMap;
use crate::lists;
use vstd::prelude::*;

verus! {

/// What the names of a container are made of.
#[derive(Debug, PartialEq, Eq)]
pub struct DevcontainerIdentity {
    /// The project's directory on the host.
    pub project_root: String,
    pub project_slug: String,
    /// Empty outside a linked worktree.
    pub worktree_slug: String,
}

#[derive(Debug, PartialEq, Eq)]
pub enum DevcontainerError {
    DockerMissing,
    Spawn(String),
    DockerFailed { step: String, code: i32, stderr: String },
    DockerfileMissing(String),
    DockerfileRead { path: String, message: String },
}

/// What a [`DevcontainerError`] says.
pub ghost enum DockerFault {
    DockerMissing,
    Spawn(Seq<char>),
    DockerFailed { step: Seq<char>, code: int, stderr: Seq<char> },
    DockerfileMissing(Seq<char>),
    DockerfileRead { path: Seq<char>, message: Seq<char> },
}

impl View for DevcontainerError {
    type V = DockerFault;

    open spec fn view(&self) -> DockerFault {
        match self {
            DevcontainerError::DockerMissing => DockerFault::DockerMissing,
            DevcontainerError::Spawn(e) => DockerFault::Spawn(e@),
            DevcontainerError::DockerFailed { step, code, stderr } => DockerFault::DockerFailed {
                step: step@,
                code: *code as int,
                stderr: stderr@,
            },
            DevcontainerError::DockerfileMissing(path) => DockerFault::DockerfileMissing(path@),
            DevcontainerError::DockerfileRead { path, message } => DockerFault::DockerfileRead {
                path: path@,
                message: message@,
            },
        }
    }
}

impl DockerFault {
    /// The error as one line.
    pub open spec fn text(self) -> Seq<char> {
        match self {
            DockerFault::DockerMissing => {
                "docker not found on PATH (install docker or use `runtime.backend = \"none\"`)"@
            },
            DockerFault::Spawn(e) => "docker invocation failed: "@ + e,
            DockerFault::DockerFailed { step, code, stderr } => "docker "@ + step + " exited "@
                + text::signed_digits(code) + ": "@ + stderr,
            DockerFault::DockerfileMissing(path) => "dockerfile not found: "@ + path,
            DockerFault::DockerfileRead { path, message } => "failed to read dockerfile "@ + path
                + ": "@ + message,
        }
    }
}

impl DevcontainerError {
    /// The error as one line.
    pub fn message(&self) -> (res: String)
        ensures
            res@ == self@.text(),
    {
        match self {
            DevcontainerError::DockerMissing => {
                "docker not found on PATH (install docker or use `runtime.backend = \"none\"`)".to_owned()
            },
            DevcontainerError::Spawn(e) => concat("docker invocation failed: ", e.as_str()),
            DevcontainerError::DockerFailed { step, code, stderr } => {
                let n = text::signed_decimal(*code as i64);
                let head = concat3("docker ", step.as_str(), " exited ");
                let mid = concat3(head.as_str(), n.as_str(), ": ");
                concat(mid.as_str(), stderr.as_str())
            },
            DevcontainerError::DockerfileMissing(path) => concat(
                "dockerfile not found: ",
                path.as_str(),
            ),
            DevcontainerError::DockerfileRead { path, message } => {
                let head = concat3("failed to read dockerfile ", path.as_str(), ": ");
                concat(head.as_str(), message.as_str())
            },
        }
    }
}

/// What bringing the container up amounts to.
#[derive(Debug, PartialEq, Eq)]
pub struct EnsurePlan {
    pub container_name: String,
    pub image_ref: String,
    pub workspace_folder: String,
    pub needs_build: bool,
}

/// A development container.
#[derive(Debug, PartialEq, Eq)]
pub struct DevcontainerBackend {
    pub spec: DevcontainerSpec,
    pub identity: DevcontainerIdentity,
    pub container_name: String,
    pub workspace_folder: String,
    pub image_ref: String,
}

// ---------------------------------------------------------------------------
// Names
// ---------------------------------------------------------------------------
/// The project's part of a name.
pub open spec fn project_part(identity: DevcontainerIdentity) -> Seq<char> {
    if identity.project_slug@.len() == 0 {
        "project"@
    } else {
        identity.project_slug@
    }
}

fn project_of(identity: &DevcontainerIdentity) -> (res: String)
    ensures
        res@ == project_part(*identity),
{
    if identity.project_slug.as_str().is_empty() {
        "project".to_owned()
    } else {
        identity.project_slug.clone()
    }
}

/// The container's name.
pub open spec fn name_of(identity: DevcontainerIdentity) -> Seq<char> {
    let base = "keel-devcontainer-"@ + project_part(identity);
    if identity.worktree_slug@.len() == 0 {
        base
    } else {
        base + "-"@ + identity.worktree_slug@
    }
}

fn derive_container_name(identity: &DevcontainerIdentity) -> (res: String)
    ensures
        res@ == name_of(*identity),
{
    let project = project_of(identity);
    let base = concat("keel-devcontainer-", project.as_str());
    if identity.worktree_slug.as_str().is_empty() {
        base
    } else {
        concat3(base.as_str(), "-", identity.worktree_slug.as_str())
    }
}

/// The project's directory inside the container.
pub open spec fn folder_of(spec: DevcontainerSpec, identity: DevcontainerIdentity) -> Seq<char> {
    match spec.workspace_folder {
        Some(f) => f@,
        None => "/workspaces/"@ + match paths::file_name_of(identity.project_root@) {
            Some(n) => n,
            None => "workspace"@,
        },
    }
}

fn resolve_workspace_folder(spec: &DevcontainerSpec, identity: &DevcontainerIdentity) -> (res:
    String)
    ensures
        res@ == folder_of(*spec, *identity),
{
    match &spec.workspace_folder {
        Some(f) => f.clone(),
        None => match paths::file_name(identity.project_root.as_str()) {
            Some(n) => concat("/workspaces/", n.as_str()),
            None => concat("/workspaces/", "workspace"),
        },
    }
}

/// The bytes of a text.
pub open spec fn bytes_of(s: Seq<char>) -> Seq<u8> {
    vstd::utf8::encode_utf8(s)
}

/// The first `n` build arguments as bytes: a zero, the name, `=` and the value of
/// each.
pub open spec fn arg_bytes(args: TextMap<String>, n: nat) -> Seq<u8>
    decreases n,
{
    if n == 0 {
        seq![]
    } else {
        let key = args.keys()[n - 1];
        arg_bytes(args, (n - 1) as nat) + seq![0u8] + bytes_of(key) + seq![61u8] + bytes_of(
            args@[key]@,
        )
    }
}

/// What the tag of a built image is the hash of: the dockerfile, or its path where
/// it cannot be read, and the build arguments.
pub open spec fn hashed_bytes(
    dockerfile: Seq<char>,
    contents: Option<Seq<u8>>,
    args: TextMap<String>,
) -> Seq<u8> {
    (match contents {
        Some(bytes) => bytes,
        None => bytes_of(dockerfile),
    }) + arg_bytes(args, args.keys().len())
}

fn push_bytes(out: &mut Vec<u8>, s: &str)
    ensures
        final(out)@ == old(out)@ + bytes_of(s@),
{
    let bytes = s.as_bytes();
    out.extend_from_slice(bytes);
    assert(out@ =~= old(out)@ + bytes_of(s@));
}

/// The bytes that the tag of a built image is the hash of.
pub fn image_inputs(dockerfile: &str, contents: Option<Vec<u8>>, args: &TextMap<String>) -> (res:
    Vec<u8>)
    ensures
        res@ == hashed_bytes(
            dockerfile@,
            match contents {
                Some(bytes) => Some(bytes@),
                None => None,
            },
            *args,
        ),
{
    let mut out: Vec<u8> = match contents {
        Some(bytes) => bytes,
        None => {
            let mut path: Vec<u8> = Vec::new();
            push_bytes(&mut path, dockerfile);
            assert(path@ =~= bytes_of(dockerfile@));
            path
        },
    };
    let ghost head = out@;
    let n: usize = args.len();
    let mut i: usize = 0;
    assert(out@ =~= head + arg_bytes(*args, 0));
    while i < n
        invariant
            i <= n == args.keys().len(),
            out@ == head + arg_bytes(*args, i as nat),
        decreases n - i,
    {
        out.push(0u8);
        push_bytes(&mut out, args.key_at(i).as_str());
        out.push(61u8);
        push_bytes(&mut out, args.value_at(i).as_str());
        assert(out@ =~= head + arg_bytes(*args, (i + 1) as nat));
        i += 1;
    }
    out
}

/// The image's name for a digest.
pub open spec fn tagged(identity: DevcontainerIdentity, hash: Seq<char>) -> Seq<char> {
    "keel-devcontainer-"@ + project_part(identity) + ":"@ + text::first_chars(hash, 12)
}

/// The image's name for a digest, written in base sixteen.
pub fn image_tag(identity: &DevcontainerIdentity, hash: &str) -> (res: String)
    ensures
        res@ == tagged(*identity, hash@),
{
    let tag = text::take_chars(hash, 12);
    let project = project_of(identity);
    let head = concat3("keel-devcontainer-", project.as_str(), ":");
    concat(head.as_str(), tag.as_str())
}

/// The image to run: the one named, or the name of the one built.
pub open spec fn image_of(
    spec: DevcontainerSpec,
    identity: DevcontainerIdentity,
    contents: Option<Seq<u8>>,
) -> Seq<char> {
    match spec.source {
        ContainerSource::Image(image) => image@,
        ContainerSource::Build { dockerfile, context, args } => tagged(
            identity,
            digest::hex_text(digest::sha256_of(hashed_bytes(dockerfile@, contents, args))),
        ),
    }
}

fn derive_image_ref(
    spec: &DevcontainerSpec,
    identity: &DevcontainerIdentity,
    contents: Option<Vec<u8>>,
) -> (res: String)
    ensures
        res@ == image_of(
            *spec,
            *identity,
            match contents {
                Some(bytes) => Some(bytes@),
                None => None,
            },
        ),
{
    match &spec.source {
        ContainerSource::Image(image) => image.clone(),
        ContainerSource::Build { dockerfile, context: _, args } => {
            let inputs = image_inputs(dockerfile.as_str(), contents, args);
            let hash = sha256(inputs.as_slice());
            let digits = hex_encode(hash.as_slice());
            image_tag(identity, digits.as_str())
        },
    }
}

/// The tag of a built image has twelve characters.
pub proof fn law_tags_have_twelve_digits(hash: Seq<u8>)
    requires
        hash.len() == 32,
    ensures
        text::first_chars(digest::hex_text(hash), 12).len() == 12,
{
}

// ---------------------------------------------------------------------------
// Commands
// ---------------------------------------------------------------------------
/// The flags of the first `n` variables in the order of their names.
pub open spec fn env_flags(flag: Seq<char>, env: TextMap<String>, n: nat) -> Seq<Seq<char>>
    decreases n,
{
    if n == 0 {
        seq![]
    } else {
        let key = env.keys()[n - 1];
        env_flags(flag, env, (n - 1) as nat) + seq![flag, key + "="@ + env@[key]@]
    }
}

fn push_env(argv: &mut Vec<String>, flag: &str, env: &TextMap<String>)
    ensures
        final(argv).deep_view() == old(argv).deep_view() + env_flags(
            flag@,
            *env,
            env.keys().len(),
        ),
{
    let ghost before = argv.deep_view();
    let n: usize = env.len();
    let mut i: usize = 0;
    assert(argv.deep_view() =~= before + env_flags(flag@, *env, 0));
    while i < n
        invariant
            i <= n == env.keys().len(),
            argv.deep_view() == before + env_flags(flag@, *env, i as nat),
        decreases n - i,
    {
        let ghost sofar = argv.deep_view();
        let pair = concat3(env.key_at(i).as_str(), "=", env.value_at(i).as_str());
        argv.push(flag.to_owned());
        argv.push(pair);
        assert(argv.deep_view() =~= sofar + seq![flag@, pair@]);
        assert(argv.deep_view() =~= before + env_flags(flag@, *env, (i + 1) as nat));
        i += 1;
    }
}

fn push_word(argv: &mut Vec<String>, word: &str)
    ensures
        final(argv).deep_view() == old(argv).deep_view().push(word@),
{
    let ghost before = argv.deep_view();
    argv.push(word.to_owned());
    assert(argv.deep_view() =~= before.push(word@));
}

fn push_all(argv: &mut Vec<String>, words: &Vec<String>)
    ensures
        final(argv).deep_view() == old(argv).deep_view() + words.deep_view(),
{
    let ghost before = argv.deep_view();
    let mut more = crate::config::model::copy_strings(words);
    argv.append(&mut more);
    assert(argv.deep_view() =~= before + words.deep_view());
}

/// The flags of a user.
pub open spec fn user_flags(user: Option<String>) -> Seq<Seq<char>> {
    match user {
        Some(u) => seq!["--user"@, u@],
        None => seq![],
    }
}

fn push_user(argv: &mut Vec<String>, user: &Option<String>)
    ensures
        final(argv).deep_view() == old(argv).deep_view() + user_flags(*user),
{
    let ghost before = argv.deep_view();
    if let Some(u) = user {
        push_word(argv, "--user");
        push_word(argv, u.as_str());
    }
    assert(argv.deep_view() =~= before + user_flags(*user));
}

/// Whether an argument of `docker run` raises the container's privileges.
pub open spec fn escalates(arg: Seq<char>) -> bool {
    ||| arg == "--privileged"@
    ||| arg == "--cap-add"@
    ||| "--cap-add="@.is_prefix_of(arg)
    ||| "--network=host"@.is_prefix_of(arg)
    ||| "--net=host"@.is_prefix_of(arg)
}

/// Whether an argument of `docker run` raises the container's privileges.
pub fn is_privilege_escalating(arg: &str) -> (res: bool)
    ensures
        res == escalates(arg@),
{
    *arg == *"--privileged" || *arg == *"--cap-add" || text::starts_with(arg, "--cap-add=")
        || text::starts_with(arg, "--network=host") || text::starts_with(arg, "--net=host")
}

/// Those of the first `n` arguments that raise privileges.
pub open spec fn escalating(args: Seq<Seq<char>>, n: nat) -> Seq<Seq<char>>
    decreases n,
{
    if n == 0 {
        seq![]
    } else {
        let before = escalating(args, (n - 1) as nat);
        if escalates(args[n - 1]) {
            before.push(args[n - 1])
        } else {
            before
        }
    }
}

/// Where a container stands.
#[derive(Debug, Clone, Copy, PartialEq, Eq, Structural)]
pub enum ContainerState {
    Running,
    Stopped,
    Missing,
}

/// What `docker inspect` said: `printed` is its output where it succeeded.
pub open spec fn state_of(printed: Option<Seq<char>>) -> ContainerState {
    match printed {
        None => ContainerState::Missing,
        Some(out) => {
            let word = text::trimmed(out);
            if word == "running"@ {
                ContainerState::Running
            } else if word.len() == 0 || word == "missing"@ {
                ContainerState::Missing
            } else {
                ContainerState::Stopped
            }
        },
    }
}

/// Where a container stands by what `docker inspect` printed, if it succeeded.
pub fn container_state(printed: Option<&str>) -> (res: ContainerState)
    ensures
        res == state_of(printed.deep_view()),
{
    match printed {
        None => ContainerState::Missing,
        Some(out) => {
            let word = text::trim(out);
            if *word.as_str() == *"running" {
                ContainerState::Running
            } else if word.as_str().is_empty() || *word.as_str() == *"missing" {
                ContainerState::Missing
            } else {
                ContainerState::Stopped
            }
        },
    }
}

/// The status of a container.
pub fn status_of(state: ContainerState) -> (res: ServiceStatus)
    ensures
        res == match state {
            ContainerState::Running => ServiceStatus::Running,
            ContainerState::Stopped => ServiceStatus::Stopped,
            ContainerState::Missing => ServiceStatus::Missing,
        },
{
    match state {
        ContainerState::Running => ServiceStatus::Running,
        ContainerState::Stopped => ServiceStatus::Stopped,
        ContainerState::Missing => ServiceStatus::Missing,
    }
}

/// How a `docker` step went: `code` is absent where a signal ended it.
pub fn docker_outcome(step: &str, success: bool, code: Option<i32>, stderr: &str) -> (res: Result<
    (),
    DevcontainerError,
>)
    ensures
        match res {
            Ok(_) => success,
            Err(e) => !success && e@ == (DockerFault::DockerFailed {
                step: step@,
                code: match code {
                    Some(c) => c as int,
                    None => -1,
                },
                stderr: stderr@,
            }),
        },
{
    if success {
        return Ok(());
    }
    Err(
        DevcontainerError::DockerFailed {
            step: step.to_owned(),
            code: match code {
                Some(c) => c,
                None => -1,
            },
            stderr: stderr.to_owned(),
        },
    )
}

/// What was found out while bringing the container up.
#[derive(Debug, Clone, Copy, PartialEq, Eq, Structural)]
pub enum EnsureEvent {
    /// Whether `docker` is installed.
    Docker(bool),
    /// Whether the dockerfile is there.
    Dockerfile(bool),
    /// Whether the image is there.
    Image(bool),
    /// The image was built.
    Built,
    /// Where the container stands.
    State(ContainerState),
}

/// What to do next to bring the container up.
#[derive(Debug, PartialEq, Eq)]
pub enum EnsureAction {
    LookForDockerfile(String),
    InspectImage,
    /// Run this command, which is the `build` step.
    Build(Vec<String>),
    InspectContainer,
    /// Run this command, which is the `start` step.
    Start(Vec<String>),
    /// Run this command, which is the `run` step.
    Run(Vec<String>),
    Ready,
    Fail(DevcontainerError),
}

impl DevcontainerBackend {
    /// The backend of a container; `dockerfile` holds the bytes of the dockerfile,
    /// where the image is built from one that can be read.
    pub fn new(
        spec: DevcontainerSpec,
        identity: DevcontainerIdentity,
        dockerfile: Option<Vec<u8>>,
    ) -> (res: Self)
        ensures
            res.spec == spec,
            res.identity == identity,
            res.container_name@ == name_of(identity),
            res.workspace_folder@ == folder_of(spec, identity),
            res.image_ref@ == image_of(
                spec,
                identity,
                match dockerfile {
                    Some(bytes) => Some(bytes@),
                    None => None,
                },
            ),
    {
        let container_name = derive_container_name(&identity);
        let workspace_folder = resolve_workspace_folder(&spec, &identity);
        let image_ref = derive_image_ref(&spec, &identity, dockerfile);
        DevcontainerBackend { spec, identity, container_name, workspace_folder, image_ref }
    }

    /// What the container was asked to be.
    pub fn spec(&self) -> (res: &DevcontainerSpec)
        ensures
            *res == self.spec,
    {
        &self.spec
    }

    /// The container's name.
    pub fn container_name(&self) -> (res: &str)
        ensures
            res@ == self.container_name@,
    {
        self.container_name.as_str()
    }

    /// The project's directory inside the container.
    pub fn workspace_folder(&self) -> (res: &str)
        ensures
            res@ == self.workspace_folder@,
    {
        self.workspace_folder.as_str()
    }

    /// The image to run.
    pub fn image_ref(&self) -> (res: &str)
        ensures
            res@ == self.image_ref@,
    {
        self.image_ref.as_str()
    }

    /// What bringing the container up amounts to.
    pub fn plan(&self) -> (res: EnsurePlan)
        ensures
            res.container_name@ == self.container_name@,
            res.image_ref@ == self.image_ref@,
            res.workspace_folder@ == self.workspace_folder@,
            res.needs_build == (self.spec.source is Build),
    {
        EnsurePlan {
            container_name: self.container_name.clone(),
            image_ref: self.image_ref.clone(),
            workspace_folder: self.workspace_folder.clone(),
            needs_build: matches!(self.spec.source, ContainerSource::Build { .. }),
        }
    }

    /// The command that creates the container.
    pub open spec fn run_words(&self) -> Seq<Seq<char>> {
        let root = self.identity.project_root@;
        seq![
            "docker"@,
            "run"@,
            "-d"@,
            "--name"@,
            self.container_name@,
            "--label"@,
            "keel.devcontainer.root="@ + root,
        ] + (if self.identity.worktree_slug@.len() > 0 {
            seq!["--label"@, "keel.devcontainer.worktree="@ + self.identity.worktree_slug@]
        } else {
            seq![]
        }) + seq![
            "-v"@,
            root + ":"@ + self.workspace_folder@,
            "-w"@,
            self.workspace_folder@,
        ] + env_flags("-e"@, self.spec.container_env, self.spec.container_env.keys().len())
            + user_flags(self.spec.remote_user) + self.spec.run_args.deep_view() + seq![
            self.image_ref@,
            "sh"@,
            "-c"@,
            "while true; do sleep 3600; done"@,
        ]
    }

    /// The command that creates the container: labelled, with the project mounted,
    /// its environment and user set, and kept alive.
    pub fn run_argv(&self) -> (res: Vec<String>)
        ensures
            res.deep_view() == self.run_words(),
    {
        let label = concat("keel.devcontainer.root=", self.identity.project_root.as_str());
        let mut argv: Vec<String> = vec![
            "docker".to_owned(),
            "run".to_owned(),
            "-d".to_owned(),
            "--name".to_owned(),
            self.container_name.clone(),
            "--label".to_owned(),
            label,
        ];
        let ghost root = self.identity.project_root@;
        let ghost part1 = seq![
            "docker"@,
            "run"@,
            "-d"@,
            "--name"@,
            self.container_name@,
            "--label"@,
            "keel.devcontainer.root="@ + root,
        ];
        assert(argv.deep_view() =~= part1);
        let ghost part2: Seq<Seq<char>> = if self.identity.worktree_slug@.len() > 0 {
            seq!["--label"@, "keel.devcontainer.worktree="@ + self.identity.worktree_slug@]
        } else {
            seq![]
        };
        if !self.identity.worktree_slug.as_str().is_empty() {
            let tree = concat("keel.devcontainer.worktree=", self.identity.worktree_slug.as_str());
            push_word(&mut argv, "--label");
            push_word(&mut argv, tree.as_str());
        }
        assert(argv.deep_view() =~= part1 + part2);
        let mount = concat3(
            self.identity.project_root.as_str(),
            ":",
            self.workspace_folder.as_str(),
        );
        push_word(&mut argv, "-v");
        push_word(&mut argv, mount.as_str());
        push_word(&mut argv, "-w");
        push_word(&mut argv, self.workspace_folder.as_str());
        assert(argv.deep_view() =~= part1 + part2 + seq![
            "-v"@,
            root + ":"@ + self.workspace_folder@,
            "-w"@,
            self.workspace_folder@,
        ]);
        push_env(&mut argv, "-e", &self.spec.container_env);
        push_user(&mut argv, &self.spec.remote_user);
        push_all(&mut argv, &self.spec.run_args);
        let ghost most = argv.deep_view();
        push_word(&mut argv, self.image_ref.as_str());
        push_word(&mut argv, "sh");
        push_word(&mut argv, "-c");
        push_word(&mut argv, "while true; do sleep 3600; done");
        assert(argv.deep_view() =~= most + seq![
            self.image_ref@,
            "sh"@,
            "-c"@,
            "while true; do sleep 3600; done"@,
        ]);
        argv
    }

    /// The configured arguments that raise the container's privileges, to be warned
    /// about.
    pub fn escalating_args(&self) -> (res: Vec<String>)
        ensures
            res.deep_view() == escalating(
                self.spec.run_args.deep_view(),
                self.spec.run_args@.len(),
            ),
    {
        let ghost all = self.spec.run_args.deep_view();
        let mut out: Vec<String> = Vec::new();
        let mut i: usize = 0;
        assert(out.deep_view() =~= escalating(all, 0));
        while i < self.spec.run_args.len()
            invariant
                i <= self.spec.run_args@.len(),
                all == self.spec.run_args.deep_view(),
                out.deep_view() == escalating(all, i as nat),
            decreases self.spec.run_args@.len() - i,
        {
            assert(all[i as int] == self.spec.run_args@[i as int]@);
            if is_privilege_escalating(self.spec.run_args[i].as_str()) {
                push_word(&mut out, self.spec.run_args[i].as_str());
            }
            i += 1;
        }
        out
    }

    /// The command that builds the image.
    pub open spec fn build_words(
        &self,
        dockerfile: Seq<char>,
        context: Seq<char>,
        args: TextMap<String>,
    ) -> Seq<Seq<char>> {
        seq!["docker"@, "build"@, "-t"@, self.image_ref@, "-f"@, dockerfile] + env_flags(
            "--build-arg"@,
            args,
            args.keys().len(),
        ) + seq![context]
    }

    fn build_argv(&self, dockerfile: &str, context: &str, args: &TextMap<String>) -> (res: Vec<
        String,
    >)
        ensures
            res.deep_view() == self.build_words(dockerfile@, context@, *args),
    {
        let mut argv: Vec<String> = vec![
            "docker".to_owned(),
            "build".to_owned(),
            "-t".to_owned(),
            self.image_ref.clone(),
            "-f".to_owned(),
            dockerfile.to_owned(),
        ];
        assert(argv.deep_view() =~= seq![
            "docker"@,
            "build"@,
            "-t"@,
            self.image_ref@,
            "-f"@,
            dockerfile@,
        ]);
        push_env(&mut argv, "--build-arg", args);
        let ghost most = argv.deep_view();
        push_word(&mut argv, context);
        assert(argv.deep_view() =~= most + seq![context@]);
        argv
    }

    /// Whether `action` is what follows `event`: docker has to be there; an image
    /// that is built is built once; the container is created, started, or left
    /// running.
    pub open spec fn follows(&self, event: EnsureEvent, action: EnsureAction) -> bool {
        match event {
            EnsureEvent::Docker(false) => action matches EnsureAction::Fail(e) && e@
                == DockerFault::DockerMissing,
            EnsureEvent::Docker(true) => match self.spec.source {
                ContainerSource::Build { dockerfile, context, args } => {
                    action matches EnsureAction::LookForDockerfile(p) && p@ == dockerfile@
                },
                ContainerSource::Image(_) => action == EnsureAction::InspectContainer,
            },
            EnsureEvent::Dockerfile(found) => match self.spec.source {
                ContainerSource::Build { dockerfile, context, args } => if found {
                    action == EnsureAction::InspectImage
                } else {
                    action matches EnsureAction::Fail(e) && e@ == DockerFault::DockerfileMissing(
                        dockerfile@,
                    )
                },
                ContainerSource::Image(_) => action == EnsureAction::InspectContainer,
            },
            EnsureEvent::Image(found) => match self.spec.source {
                ContainerSource::Build { dockerfile, context, args } => if found {
                    action == EnsureAction::InspectContainer
                } else {
                    action matches EnsureAction::Build(argv) && argv.deep_view()
                        == self.build_words(dockerfile@, context@, args)
                },
                ContainerSource::Image(_) => action == EnsureAction::InspectContainer,
            },
            EnsureEvent::Built => action == EnsureAction::InspectContainer,
            EnsureEvent::State(ContainerState::Running) => action == EnsureAction::Ready,
            EnsureEvent::State(ContainerState::Stopped) => {
                action matches EnsureAction::Start(argv) && argv.deep_view() == seq![
                    "docker"@,
                    "start"@,
                    self.container_name@,
                ]
            },
            EnsureEvent::State(ContainerState::Missing) => {
                action matches EnsureAction::Run(argv) && argv.deep_view() == self.run_words()
            },
        }
    }

    /// Decides what follows an observation while the container is brought up.
    pub fn ensure_next(&self, event: EnsureEvent) -> (res: EnsureAction)
        ensures
            self.follows(event, res),
    {
        match event {
            EnsureEvent::Docker(found) => {
                if !found {
                    return EnsureAction::Fail(DevcontainerError::DockerMissing);
                }
                match &self.spec.source {
                    ContainerSource::Build { dockerfile, context: _, args: _ } => {
                        EnsureAction::LookForDockerfile(dockerfile.clone())
                    },
                    ContainerSource::Image(_) => EnsureAction::InspectContainer,
                }
            },
            EnsureEvent::Dockerfile(found) => match &self.spec.source {
                ContainerSource::Build { dockerfile, context: _, args: _ } => if found {
                    EnsureAction::InspectImage
                } else {
                    EnsureAction::Fail(DevcontainerError::DockerfileMissing(dockerfile.clone()))
                },
                ContainerSource::Image(_) => EnsureAction::InspectContainer,
            },
            EnsureEvent::Image(found) => match &self.spec.source {
                ContainerSource::Build { dockerfile, context, args } => if found {
                    EnsureAction::InspectContainer
                } else {
                    EnsureAction::Build(
                        self.build_argv(dockerfile.as_str(), context.as_str(), args),
                    )
                },
                ContainerSource::Image(_) => EnsureAction::InspectContainer,
            },
            EnsureEvent::Built => EnsureAction::InspectContainer,
            EnsureEvent::State(ContainerState::Running) => EnsureAction::Ready,
            EnsureEvent::State(ContainerState::Stopped) => {
                let argv = vec![
                    "docker".to_owned(),
                    "start".to_owned(),
                    self.container_name.clone(),
                ];
                assert(argv.deep_view() =~= seq!["docker"@, "start"@, self.container_name@]);
                EnsureAction::Start(argv)
            },
            EnsureEvent::State(ContainerState::Missing) => EnsureAction::Run(self.run_argv()),
        }
    }

    /// The command that runs `argv` inside the container.
    pub open spec fn exec_words(&self, argv: Seq<Seq<char>>, opts: ExecOptions) -> Seq<Seq<char>> {
        seq![
            "docker"@,
            "exec"@,
            if opts.tty {
                "-it"@
            } else {
                "-i"@
            },
        ] + env_flags("-e"@, self.spec.remote_env, self.spec.remote_env.keys().len())
            + env_flags("-e"@, opts.env, opts.env.keys().len()) + seq![
            "-w"@,
            match opts.workdir {
                Some(w) => w@,
                None => self.workspace_folder@,
            },
        ] + user_flags(self.spec.remote_user) + seq![self.container_name@] + argv
    }

    /// The command that runs `argv` inside the container. The container's own
    /// variables stand before those of the call, which win.
    pub fn exec_argv(&self, argv: &Vec<String>, opts: &ExecOptions) -> (res: Vec<String>)
        ensures
            res.deep_view() == self.exec_words(argv.deep_view(), *opts),
    {
        let flag = if opts.tty {
            "-it"
        } else {
            "-i"
        };
        let mut out: Vec<String> = vec!["docker".to_owned(), "exec".to_owned(), flag.to_owned()];
        assert(out.deep_view() =~= seq![
            "docker"@,
            "exec"@,
            if opts.tty {
                "-it"@
            } else {
                "-i"@
            },
        ]);
        push_env(&mut out, "-e", &self.spec.remote_env);
        push_env(&mut out, "-e", &opts.env);
        let ghost before = out.deep_view();
        push_word(&mut out, "-w");
        match &opts.workdir {
            Some(w) => push_word(&mut out, w.as_str()),
            None => push_word(&mut out, self.workspace_folder.as_str()),
        }
        assert(out.deep_view() =~= before + seq![
            "-w"@,
            match opts.workdir {
                Some(w) => w@,
                None => self.workspace_folder@,
            },
        ]);
        push_user(&mut out, &self.spec.remote_user);
        let ghost sofar = out.deep_view();
        push_word(&mut out, self.container_name.as_str());
        assert(out.deep_view() =~= sofar + seq![self.container_name@]);
        push_all(&mut out, argv);
        out
    }

    /// The command that runs `argv` inside the container, with standard input piped
    /// where that is asked for: then there is no terminal.
    pub fn build_exec_command(&self, argv: &Vec<String>, opts: ExecOptions, pipe_stdin: bool) -> (res:
        Vec<String>)
        ensures
            res.deep_view() == self.exec_words(
                argv.deep_view(),
                (ExecOptions { tty: opts.tty && !pipe_stdin, ..opts }),
            ),
    {
        let ExecOptions { tty, env, workdir } = opts;
        let effective = ExecOptions { tty: tty && !pipe_stdin, env, workdir };
        self.exec_argv(argv, &effective)
    }

    /// The command of an action on the container. `up` is for a container that has
    /// been brought up.
    pub open spec fn action_words(&self, action: Seq<char>) -> Option<Seq<Seq<char>>> {
        let name = self.container_name@;
        if action == "up"@ {
            Some(seq!["docker"@, "logs"@, "-f"@, "--tail"@, "1"@, name])
        } else if action == "down"@ {
            Some(seq!["docker"@, "rm"@, "-f"@, name])
        } else if action == "stop"@ {
            Some(seq!["docker"@, "stop"@, name])
        } else if action == "restart"@ {
            Some(seq!["docker"@, "restart"@, name])
        } else {
            None
        }
    }

    /// The command of an action on the container.
    pub fn service_action(&self, action: &str) -> (res: Result<Vec<String>, BackendError>)
        ensures
            match res {
                Ok(argv) => self.action_words(action@) == Some(argv.deep_view()),
                Err(e) => self.action_words(action@) is None && registry::reports(
                    e,
                    "unsupported service action `"@ + action@
                        + "` (expected up / down / stop / restart)"@,
                ),
            },
    {
        let name = self.container_name.clone();
        let argv: Vec<String> = if *action == *"up" {
            vec![
                "docker".to_owned(),
                "logs".to_owned(),
                "-f".to_owned(),
                "--tail".to_owned(),
                "1".to_owned(),
                name,
            ]
        } else if *action == *"down" {
            vec!["docker".to_owned(), "rm".to_owned(), "-f".to_owned(), name]
        } else if *action == *"stop" {
            vec!["docker".to_owned(), "stop".to_owned(), name]
        } else if *action == *"restart" {
            vec!["docker".to_owned(), "restart".to_owned(), name]
        } else {
            return Err(
                BackendError::Reported(
                    concat3(
                        "unsupported service action `",
                        action,
                        "` (expected up / down / stop / restart)",
                    ),
                ),
            );
        };
        assert(argv.deep_view() =~= self.action_words(action@)->0);
        Ok(argv)
    }

    /// The command that follows the container's log.
    pub fn tail_argv(&self) -> (res: Vec<String>)
        ensures
            res.deep_view() == seq![
                "docker"@,
                "logs"@,
                "-f"@,
                "--tail"@,
                "200"@,
                self.container_name@,
            ],
    {
        let argv = vec![
            "docker".to_owned(),
            "logs".to_owned(),
            "-f".to_owned(),
            "--tail".to_owned(),
            "200".to_owned(),
            self.container_name.clone(),
        ];
        assert(argv.deep_view() =~= seq![
            "docker"@,
            "logs"@,
            "-f"@,
            "--tail"@,
            "200"@,
            self.container_name@,
        ]);
        argv
    }

    /// The services of the backend: the container itself.
    pub fn list_services(&self) -> (res: Vec<String>)
        ensures
            res.deep_view() == seq![self.container_name@],
    {
        let out = vec![self.container_name.clone()];
        assert(out.deep_view() =~= seq![self.container_name@]);
        out
    }
}

/// The command always ends with what was asked to be run, right behind the
/// container's name.
pub proof fn law_exec_ends_with_the_command(
    backend: DevcontainerBackend,
    argv: Seq<Seq<char>>,
    opts: ExecOptions,
)
    ensures
        ({
            let words = backend.exec_words(argv, opts);
            let at = words.len() - argv.len();
            &&& words.skip(at) == argv
            &&& words[at - 1] == backend.container_name@
        }),
{
    let words = backend.exec_words(argv, opts);
    assert(words.skip(words.len() - argv.len()) =~= argv);
}

/// Containers are told apart by project and by worktree: the name begins alike for
/// all, names the project, and then the worktree where there is one.
pub proof fn law_names_hold_project_and_worktree(identity: DevcontainerIdentity)
    ensures
        identity.project_slug@.len() > 0 && identity.worktree_slug@.len() == 0 ==> name_of(identity)
            == "keel-devcontainer-"@ + identity.project_slug@,
        identity.project_slug@.len() > 0 && identity.worktree_slug@.len() > 0 ==> name_of(identity)
            == "keel-devcontainer-"@ + identity.project_slug@ + "-"@ + identity.worktree_slug@,
        identity.project_slug@.len() == 0 ==> project_part(identity) == "project"@,
{
}

/// The project stands in the container where the specification says, else under its
/// own name below the usual directory.
pub proof fn law_the_project_keeps_its_name(spec: DevcontainerSpec, identity: DevcontainerIdentity)
    ensures
        spec.workspace_folder is Some ==> folder_of(spec, identity) == spec.workspace_folder->0@,
        spec.workspace_folder is None && paths::file_name_of(identity.project_root@) is Some
            ==> folder_of(spec, identity) == "/workspaces/"@ + paths::file_name_of(
            identity.project_root@,
        )->0,
{
}

/// An image is used under its name; a built one is tagged with the hash of the
/// dockerfile and every build argument, in the order of their names.
pub proof fn law_tags_depend_on_all_that_is_built(
    spec: DevcontainerSpec,
    identity: DevcontainerIdentity,
    contents: Option<Seq<u8>>,
)
    ensures
        spec.source is Image ==> image_of(spec, identity, contents) == spec.source->Image_0@,
        spec.source is Build ==> {
            let args = spec.source->args;
            let first = match contents {
                Some(bytes) => bytes,
                None => vstd::utf8::encode_utf8(spec.source->dockerfile@),
            };
            let all = hashed_bytes(spec.source->dockerfile@, contents, args);
            &&& first.is_prefix_of(all)
            &&& lists::chains(
                all.skip(first.len() as int),
                |i: int|
                    seq![0u8] + vstd::utf8::encode_utf8(args.keys()[i]) + seq![61u8]
                        + vstd::utf8::encode_utf8(args@[args.keys()[i]]@),
                args.keys().len(),
            )
            &&& image_of(spec, identity, contents) == "keel-devcontainer-"@ + project_part(identity)
                + ":"@ + text::first_chars(digest::hex_text(digest::sha256_of(all)), 12)
        },
{
    if spec.source is Build {
        let args = spec.source->args;
        let first = match contents {
            Some(bytes) => bytes,
            None => bytes_of(spec.source->dockerfile@),
        };
        let all = hashed_bytes(spec.source->dockerfile@, contents, args);
        lemma_arg_bytes(args, args.keys().len());
        assert(all.skip(first.len() as int) =~= arg_bytes(args, args.keys().len()));
        assert(all.take(first.len() as int) =~= first);
    }
}

proof fn lemma_arg_bytes(args: TextMap<String>, n: nat)
    requires
        n <= args.keys().len(),
    ensures
        lists::chains(
            arg_bytes(args, n),
            |i: int|
                seq![0u8] + vstd::utf8::encode_utf8(args.keys()[i]) + seq![61u8]
                    + vstd::utf8::encode_utf8(args@[args.keys()[i]]@),
            n,
        ),
    decreases n,
{
    let part = |i: int|
        seq![0u8] + vstd::utf8::encode_utf8(args.keys()[i]) + seq![61u8]
            + vstd::utf8::encode_utf8(args@[args.keys()[i]]@);
    if n == 0 {
        lists::lemma_chains_none(part);
    } else {
        let m = (n - 1) as nat;
        lemma_arg_bytes(args, m);
        lists::lemma_chains_next(arg_bytes(args, m), part, m);
        assert(arg_bytes(args, n) =~= arg_bytes(args, m) + part(m as int));
    }
}

/// Whether the variable at place `i` is passed at its place, behind a flag.
pub open spec fn passed_at(
    words: Seq<Seq<char>>,
    flag: Seq<char>,
    env: TextMap<String>,
    i: int,
) -> bool {
    &&& words[2 * i] == flag
    &&& words[2 * i + 1] == env.keys()[i] + "="@ + env@[env.keys()[i]]@
}

/// Every variable is passed, in the order of their names, with its value, each behind
/// a flag of its own.
pub proof fn law_every_variable_is_passed(flag: Seq<char>, env: TextMap<String>)
    ensures
        ({
            let n = env.keys().len();
            let words = env_flags(flag, env, n);
            &&& words.len() == 2 * n
            &&& forall|i: int| 0 <= i < n ==> #[trigger] passed_at(words, flag, env, i)
        }),
{
    lemma_env_flags(flag, env, env.keys().len());
}

proof fn lemma_env_flags(flag: Seq<char>, env: TextMap<String>, n: nat)
    requires
        n <= env.keys().len(),
    ensures
        ({
            let words = env_flags(flag, env, n);
            &&& words.len() == 2 * n
            &&& forall|i: int| 0 <= i < n ==> #[trigger] passed_at(words, flag, env, i)
        }),
    decreases n,
{
    if n > 0 {
        let m = (n - 1) as nat;
        lemma_env_flags(flag, env, m);
        let before = env_flags(flag, env, m);
        let words = env_flags(flag, env, n);
        assert forall|i: int| 0 <= i < n implies #[trigger] passed_at(words, flag, env, i) by {
            if i < m {
                assert(passed_at(before, flag, env, i));
                assert(words[2 * i] == before[2 * i]);
                assert(words[2 * i + 1] == before[2 * i + 1]);
            }
        }
    }
}

/// Arguments that raise privileges are warned about, all of them and no other.
pub proof fn law_escalating_arguments_are_all_found(args: Seq<Seq<char>>)
    ensures
        lists::selects(
            escalating(args, args.len()),
            |i: int| args[i],
            |i: int|
                args[i] == "--privileged"@ || args[i] == "--cap-add"@ || "--cap-add="@.is_prefix_of(
                    args[i],
                ) || "--network=host"@.is_prefix_of(args[i]) || "--net=host"@.is_prefix_of(args[i]),
            args.len(),
        ),
{
    lemma_escalating(args, args.len());
}

proof fn lemma_escalating(args: Seq<Seq<char>>, n: nat)
    requires
        n <= args.len(),
    ensures
        lists::selects(
            escalating(args, n),
            |i: int| args[i],
            |i: int|
                args[i] == "--privileged"@ || args[i] == "--cap-add"@ || "--cap-add="@.is_prefix_of(
                    args[i],
                ) || "--network=host"@.is_prefix_of(args[i]) || "--net=host"@.is_prefix_of(args[i]),
            n,
        ),
    decreases n,
{
    let value = |i: int| args[i];
    let keep = |i: int|
        args[i] == "--privileged"@ || args[i] == "--cap-add"@ || "--cap-add="@.is_prefix_of(args[i])
            || "--network=host"@.is_prefix_of(args[i]) || "--net=host"@.is_prefix_of(args[i]);
    if n == 0 {
        lists::lemma_selects_none(value, keep);
    } else {
        let m = (n - 1) as nat;
        lemma_escalating(args, m);
        lists::lemma_selects_next(escalating(args, m), value, keep, m);
    }
}

/// A container runs only where docker says so; one that docker does not know is
/// missing, and any other is stopped.
pub proof fn law_states_are_what_docker_says(printed: Option<Seq<char>>)
    ensures
        state_of(printed) == ContainerState::Running <==> printed is Some && text::trimmed(
            printed->0,
        ) == "running"@,
        state_of(printed) == ContainerState::Missing <==> printed is None || text::trimmed(
            printed->0,
        ).len() == 0 || text::trimmed(printed->0) == "missing"@,
{
    reveal_strlit("running");
    reveal_strlit("missing");
    assert("running"@[0] != "missing"@[0]);
}

/// The container is created under its name, with the project mounted in its place and
/// worked in, every variable, the user and every further argument, and last the image
/// and what keeps it alive.
pub proof fn law_containers_are_created_as_asked(backend: DevcontainerBackend)
    ensures
        ({
            let words = backend.run_words();
            let root = backend.identity.project_root@;
            let env = backend.spec.container_env;
            let linked = backend.identity.worktree_slug@.len() > 0;
            let a = if linked {
                9int
            } else {
                7int
            };
            let b = a + 4;
            let c = b + 2 * env.keys().len();
            let d = c + if backend.spec.remote_user is Some {
                2int
            } else {
                0
            };
            let e = d + backend.spec.run_args@.len();
            &&& words.len() == e + 4
            &&& words[0] == "docker"@ && words[1] == "run"@ && words[2] == "-d"@
            &&& words[3] == "--name"@ && words[4] == backend.container_name@
            &&& words[5] == "--label"@ && words[6] == "keel.devcontainer.root="@ + root
            &&& linked ==> words[7] == "--label"@ && words[8] == "keel.devcontainer.worktree="@
                + backend.identity.worktree_slug@
            &&& words[a] == "-v"@ && words[a + 1] == root + ":"@ + backend.workspace_folder@
            &&& words[a + 2] == "-w"@ && words[a + 3] == backend.workspace_folder@
            &&& words.subrange(b, c) == env_flags("-e"@, env, env.keys().len())
            &&& backend.spec.remote_user is Some ==> words[c] == "--user"@ && words[c + 1]
                == backend.spec.remote_user->0@
            &&& words.subrange(d, e) == backend.spec.run_args.deep_view()
            &&& words[e] == backend.image_ref@ && words[e + 1] == "sh"@ && words[e + 2] == "-c"@
            &&& words[e + 3] == "while true; do sleep 3600; done"@
        }),
{
    let words = backend.run_words();
    let env = backend.spec.container_env;
    lemma_env_flags("-e"@, env, env.keys().len());
    let a = if backend.identity.worktree_slug@.len() > 0 {
        9int
    } else {
        7int
    };
    let b = a + 4;
    let c = b + 2 * env.keys().len();
    let d = c + if backend.spec.remote_user is Some {
        2int
    } else {
        0
    };
    let e = d + backend.spec.run_args@.len();
    assert(backend.spec.run_args.deep_view().len() == backend.spec.run_args@.len());
    assert(words.len() == e + 4);
    assert(words.subrange(b, c) =~= env_flags("-e"@, env, env.keys().len()));
    assert(words.subrange(d, e) =~= backend.spec.run_args.deep_view());
}

/// The image is built under its name from the dockerfile and the context, with every
/// build argument.
pub proof fn law_images_are_built_as_asked(
    backend: DevcontainerBackend,
    dockerfile: Seq<char>,
    context: Seq<char>,
    args: TextMap<String>,
)
    ensures
        ({
            let words = backend.build_words(dockerfile, context, args);
            let n = 2 * args.keys().len() as int;
            &&& words.len() == n + 7
            &&& words[0] == "docker"@ && words[1] == "build"@ && words[2] == "-t"@
            &&& words[3] == backend.image_ref@ && words[4] == "-f"@ && words[5] == dockerfile
            &&& words.subrange(6, 6 + n) == env_flags("--build-arg"@, args, args.keys().len())
            &&& words[6 + n] == context
        }),
{
    let words = backend.build_words(dockerfile, context, args);
    lemma_env_flags("--build-arg"@, args, args.keys().len());
    assert(words.subrange(6, 6 + 2 * args.keys().len() as int) =~= env_flags(
        "--build-arg"@,
        args,
        args.keys().len(),
    ));
}

/// A command is run in the container with the container's variables and, behind them,
/// those of the call, in the directory of the call or else in the project, as the
/// container's user; a terminal is asked for exactly where the call does.
pub proof fn law_commands_run_as_asked(
    backend: DevcontainerBackend,
    argv: Seq<Seq<char>>,
    opts: ExecOptions,
)
    ensures
        ({
            let words = backend.exec_words(argv, opts);
            let a = 3 + 2 * backend.spec.remote_env.keys().len() as int;
            let b = a + 2 * opts.env.keys().len();
            let c = b + 2 + if backend.spec.remote_user is Some {
                2int
            } else {
                0
            };
            &&& words.len() == c + 1 + argv.len()
            &&& words[0] == "docker"@ && words[1] == "exec"@
            &&& opts.tty ==> words[2] == "-it"@
            &&& !opts.tty ==> words[2] == "-i"@
            &&& words.subrange(3, a) == env_flags(
                "-e"@,
                backend.spec.remote_env,
                backend.spec.remote_env.keys().len(),
            )
            &&& words.subrange(a, b) == env_flags("-e"@, opts.env, opts.env.keys().len())
            &&& words[b] == "-w"@
            &&& opts.workdir is Some ==> words[b + 1] == opts.workdir->0@
            &&& opts.workdir is None ==> words[b + 1] == backend.workspace_folder@
            &&& backend.spec.remote_user is Some ==> words[b + 2] == "--user"@ && words[b + 3]
                == backend.spec.remote_user->0@
            &&& words[c] == backend.container_name@
            &&& words.skip(c + 1) == argv
        }),
{
    let words = backend.exec_words(argv, opts);
    let (first, second) = (backend.spec.remote_env, opts.env);
    lemma_env_flags("-e"@, first, first.keys().len());
    lemma_env_flags("-e"@, second, second.keys().len());
    let a = 3 + 2 * first.keys().len() as int;
    let b = a + 2 * second.keys().len();
    let c = b + 2 + if backend.spec.remote_user is Some {
        2int
    } else {
        0
    };
    assert(words.subrange(3, a) =~= env_flags("-e"@, first, first.keys().len()));
    assert(words.subrange(a, b) =~= env_flags("-e"@, second, second.keys().len()));
    assert(words.skip(c + 1) =~= argv);
}

/// Bringing the container up ends only with a running container, or fails: it is
/// ready exactly where it runs, started where it stands, and created where it is
/// missing; an image is built only where it is not there, from a dockerfile that is.
pub proof fn law_containers_are_brought_up(
    backend: DevcontainerBackend,
    event: EnsureEvent,
    action: EnsureAction,
)
    requires
        backend.follows(event, action),
    ensures
        action is Ready <==> event == EnsureEvent::State(ContainerState::Running),
        action is Start <==> event == EnsureEvent::State(ContainerState::Stopped),
        action is Run <==> event == EnsureEvent::State(ContainerState::Missing),
        action is Build <==> event == EnsureEvent::Image(false) && backend.spec.source is Build,
        action is InspectImage <==> event == EnsureEvent::Dockerfile(true) && backend.spec.source
            is Build,
        action is LookForDockerfile <==> event == EnsureEvent::Docker(true) && backend.spec.source
            is Build,
        action is Fail <==> event == EnsureEvent::Docker(false) || (event
            == EnsureEvent::Dockerfile(false) && backend.spec.source is Build),
        event is Built ==> action is InspectContainer,
        action matches EnsureAction::Run(argv) ==> argv.deep_view() == backend.run_words(),
        action matches EnsureAction::Start(argv) ==> argv.deep_view() == seq![
            "docker"@,
            "start"@,
            backend.container_name@,
        ],
        action matches EnsureAction::Build(argv) ==> argv.deep_view() == backend.build_words(
            backend.spec.source->dockerfile@,
            backend.spec.source->context@,
            backend.spec.source->args,
        ),
{
}

/// There is a command for each of four actions and for no other, and each names the
/// container.
pub proof fn law_actions_name_the_container(backend: DevcontainerBackend, action: Seq<char>)
    ensures
        ({
            let words = backend.action_words(action);
            &&& words is Some <==> action == "up"@ || action == "down"@ || action == "stop"@
                || action == "restart"@
            &&& words is Some ==> words->0.last() == backend.container_name@ && words->0[0]
                == "docker"@
            &&& action == "up"@ ==> words->0[1] == "logs"@
            &&& action == "down"@ ==> words->0[1] == "rm"@ && words->0[2] == "-f"@
            &&& action == "stop"@ ==> words->0[1] == "stop"@
            &&& action == "restart"@ ==> words->0[1] == "restart"@
        }),
{
    reveal_strlit("up");
    reveal_strlit("down");
    reveal_strlit("stop");
    reveal_strlit("restart");
    assert("up"@.len() == 2 && "down"@.len() == 4 && "stop"@.len() == 4 && "restart"@.len() == 7);
    assert("down"@[0] != "stop"@[0]);
}

/// An error tells what it holds.
pub proof fn law_errors_tell_what_they_hold(e: DevcontainerError)
    ensures
        e is DockerMissing <==> e@ is DockerMissing,
        e matches DevcontainerError::Spawn(x) ==> e@ == DockerFault::Spawn(x@),
        e matches DevcontainerError::DockerfileMissing(x) ==> e@ == DockerFault::DockerfileMissing(x@),
        e matches DevcontainerError::DockerfileRead { path, message } ==> e@ == (DockerFault::DockerfileRead {
            path: path@,
            message: message@,
        }),
        e matches DevcontainerError::DockerFailed { step, code, stderr } ==> e@ == (
        DockerFault::DockerFailed { step: step@, code: code as int, stderr: stderr@ }),
{
}

/// What is said of each error.
pub proof fn law_docker_errors_are_told(e: DockerFault)
    ensures
        e is DockerMissing ==> e.text()
            == "docker not found on PATH (install docker or use `runtime.backend = \"none\"`)"@,
        e matches DockerFault::Spawn(x) ==> e.text() == "docker invocation failed: "@ + x,
        e matches DockerFault::DockerFailed { step, code, stderr } ==> e.text() == "docker "@ + step
            + " exited "@ + text::signed_digits(code) + ": "@ + stderr,
        e matches DockerFault::DockerfileMissing(path) ==> e.text() == "dockerfile not found: "@
            + path,
        e matches DockerFault::DockerfileRead { path, message } ==> e.text()
            == "failed to read dockerfile "@ + path + ": "@ + message,
{
}

/// The project stands where the file says, else below `/workspaces` under the name of
/// its directory.
pub proof fn law_where_the_project_is_mounted(spec: DevcontainerSpec, id: DevcontainerIdentity)
    ensures
        spec.workspace_folder is Some ==> folder_of(spec, id) == spec.workspace_folder->0@,
        spec.workspace_folder is None && paths::file_name_of(id.project_root@) is Some ==>
            folder_of(spec, id) == "/workspaces/"@ + paths::file_name_of(id.project_root@)->0,
        spec.workspace_folder is None && paths::file_name_of(id.project_root@) is None ==>
            folder_of(spec, id) == "/workspaces/"@ + "workspace"@,
{
}

} // verus!
