//! The detectors, and the order in which they are asked.
use crate::init::detector;
use crate::init::detector::{
    CommandFragment, Detector, Facts, Finding, Fragment, RunSpec,
};
use crate::text;
use crate::text::{concat, concat3};
use crate::lists;
use vstd::prelude::*;

verus! {

/// Compose files; owns the `runtime` section.
pub struct Compose;

/// Development containers; owns the `devcontainer` section.
pub struct Devcontainer;

/// Environment files.
pub struct DotEnv;

/// Go modules.
pub struct Go;

/// Node and Deno projects.
pub struct Node;

/// Composer projects, with Laravel and Symfony told apart.
pub struct Php;

/// Python projects.
pub struct Python;

/// Bundler projects, with Rails told apart.
pub struct Ruby;

/// Cargo projects.
pub struct Rust;

/// One note.
pub open spec fn note(s: Seq<char>) -> Seq<Seq<char>> {
    seq![s]
}

fn one_note(s: String) -> (res: Vec<String>)
    ensures
        res.deep_view() == note(s@),
{
    let res = vec![s];
    assert(res.deep_view() =~= note(s@));
    res
}

// ---------------------------------------------------------------------------
// Containers and environment
// ---------------------------------------------------------------------------
/// The first of four paths that exists.
pub open spec fn compose_file(facts: Facts) -> Option<Seq<char>> {
    if facts.has_path("docker-compose.yml"@) {
        Some("docker-compose.yml"@)
    } else if facts.has_path("docker-compose.yaml"@) {
        Some("docker-compose.yaml"@)
    } else if facts.has_path("compose.yml"@) {
        Some("compose.yml"@)
    } else if facts.has_path("compose.yaml"@) {
        Some("compose.yaml"@)
    } else {
        None
    }
}

/// The `runtime` section of a compose project.
pub open spec fn compose_runtime() -> detector::FragmentModel {
    detector::FragmentModel::Runtime {
        backend: "compose"@,
        default_service: None,
        compose_passthrough: true,
        service_passthrough: true,
    }
}

impl Detector for Compose {
    open spec fn finds(&self, facts: Facts) -> Option<detector::FindingModel> {
        match compose_file(facts) {
            Some(found) => Some(
                detector::FindingModel {
                    ecosystem: "compose"@,
                    tool: Some(found),
                    fragments: seq![compose_runtime()],
                    notes: note("Detected "@ + found + "; backend = \"compose\"."@),
                },
            ),
            None => None,
        }
    }

    fn detect(&self, facts: &Facts) -> (res: Option<Finding>) {
        let found = if facts.has("docker-compose.yml") {
            "docker-compose.yml"
        } else if facts.has("docker-compose.yaml") {
            "docker-compose.yaml"
        } else if facts.has("compose.yml") {
            "compose.yml"
        } else if facts.has("compose.yaml") {
            "compose.yaml"
        } else {
            return None;
        };
        let fragments = vec![
            Fragment::Runtime {
                backend: "compose",
                default_service: None,
                compose_passthrough: true,
                service_passthrough: true,
            },
        ];
        assert(fragments.deep_view() =~= seq![compose_runtime()]);
        Some(
            Finding {
                ecosystem: "compose",
                tool: Some(found.to_owned()),
                fragments,
                notes: one_note(concat3("Detected ", found, "; backend = \"compose\".")),
            },
        )
    }
}

/// The first place that has a container description.
pub open spec fn devcontainer_file(facts: Facts) -> Option<Seq<char>> {
    if facts.has_path(".devcontainer/devcontainer.json"@) {
        Some(".devcontainer/devcontainer.json"@)
    } else if facts.has_path(".devcontainer.json"@) {
        Some(".devcontainer.json"@)
    } else {
        None
    }
}

impl Detector for Devcontainer {
    open spec fn finds(&self, facts: Facts) -> Option<detector::FindingModel> {
        match devcontainer_file(facts) {
            Some(found) => Some(
                detector::FindingModel {
                    ecosystem: "devcontainer"@,
                    tool: None,
                    fragments: seq![detector::FragmentModel::Devcontainer { path: found }],
                    notes: note(
                        "Detected "@ + found + "; enabled the [devcontainer] integration."@,
                    ),
                },
            ),
            None => None,
        }
    }

    fn detect(&self, facts: &Facts) -> (res: Option<Finding>) {
        let found = if facts.has(".devcontainer/devcontainer.json") {
            ".devcontainer/devcontainer.json"
        } else if facts.has(".devcontainer.json") {
            ".devcontainer.json"
        } else {
            return None;
        };
        let fragments = vec![Fragment::Devcontainer { path: found.to_owned() }];
        assert(fragments.deep_view() =~= seq![
            detector::FragmentModel::Devcontainer { path: found@ },
        ]);
        Some(
            Finding {
                ecosystem: "devcontainer",
                tool: None,
                fragments,
                notes: one_note(
                    concat3("Detected ", found, "; enabled the [devcontainer] integration."),
                ),
            },
        )
    }
}

/// The environment files of a project. Samples are not among them.
pub open spec fn env_files(facts: Facts) -> Seq<Seq<char>> {
    (if facts.has_path(".env"@) {
        seq![".env"@]
    } else {
        seq![]
    }) + (if facts.has_path(".env.local"@) {
        seq![".env.local"@]
    } else {
        seq![]
    })
}

impl Detector for DotEnv {
    open spec fn finds(&self, facts: Facts) -> Option<detector::FindingModel> {
        let found = env_files(facts);
        if found.len() == 0 {
            None
        } else {
            Some(
                detector::FindingModel {
                    ecosystem: "dotenv"@,
                    tool: None,
                    fragments: found.map_values(
                        |p: Seq<char>| detector::FragmentModel::EnvFile(p),
                    ),
                    notes: note(
                        "Detected "@ + text::joined(found, ", "@) + "; added to env_files."@,
                    ),
                },
            )
        }
    }

    fn detect(&self, facts: &Facts) -> (res: Option<Finding>) {
        let mut found: Vec<String> = Vec::new();
        let mut fragments: Vec<Fragment> = Vec::new();
        let ghost want = env_files(*facts);
        if facts.has(".env") {
            found.push(".env".to_owned());
            fragments.push(Fragment::EnvFile(".env".to_owned()));
        }
        if facts.has(".env.local") {
            found.push(".env.local".to_owned());
            fragments.push(Fragment::EnvFile(".env.local".to_owned()));
        }
        assert(found.deep_view() =~= want);
        assert(fragments.deep_view() =~= want.map_values(
            |p: Seq<char>| detector::FragmentModel::EnvFile(p),
        ));
        if found.len() == 0 {
            return None;
        }
        let list = text::join(&found, ", ");
        Some(
            Finding {
                ecosystem: "dotenv",
                tool: None,
                fragments,
                notes: one_note(concat3("Detected ", list.as_str(), "; added to env_files.")),
            },
        )
    }
}

// ---------------------------------------------------------------------------
// Languages
// ---------------------------------------------------------------------------
/// The commands of a Go project.
pub open spec fn go_commands() -> Seq<detector::FragmentModel> {
    seq![
        detector::one_line("build"@, "Build"@, "go build ./..."@).forwarding().fragment(),
        detector::one_line("test"@, "Run tests"@, "go test ./..."@).forwarding().fragment(),
        detector::one_line("run"@, "Run the main package"@, "go run ."@).forwarding().fragment(),
        detector::one_line("vet"@, "Run go vet"@, "go vet ./..."@).fragment(),
    ]
}

fn go_list() -> (res: Vec<Fragment>)
    ensures
        res.deep_view() == go_commands(),
{
    let res = vec![
        Fragment::Command(CommandFragment::shell("build", "Build", "go build ./...").with_forward_args()),
        Fragment::Command(CommandFragment::shell("test", "Run tests", "go test ./...").with_forward_args()),
        Fragment::Command(CommandFragment::shell("run", "Run the main package", "go run .").with_forward_args()),
        Fragment::Command(CommandFragment::shell("vet", "Run go vet", "go vet ./...")),
    ];
    assert(res.deep_view() =~= go_commands());
    res
}

impl Detector for Go {
    open spec fn finds(&self, facts: Facts) -> Option<detector::FindingModel> {
        if facts.has_path("go.mod"@) {
            Some(
                detector::FindingModel {
                    ecosystem: "go"@,
                    tool: Some("go"@),
                    fragments: go_commands(),
                    notes: note("Detected go.mod; suggested go commands."@),
                },
            )
        } else {
            None
        }
    }

    fn detect(&self, facts: &Facts) -> (res: Option<Finding>) {
        if !facts.has("go.mod") {
            return None;
        }
        Some(
            Finding {
                ecosystem: "go",
                tool: Some("go".to_owned()),
                fragments: go_list(),
                notes: one_note("Detected go.mod; suggested go commands.".to_owned()),
            },
        )
    }
}

/// The package managers of Node and Deno.
#[derive(Debug, Clone, Copy, PartialEq, Eq, Structural)]
pub enum Pm {
    Bun,
    Deno,
    Pnpm,
    Yarn,
    Npm,
}

impl Pm {
    /// The name of the program.
    pub open spec fn label(self) -> Seq<char> {
        match self {
            Pm::Bun => "bun"@,
            Pm::Deno => "deno"@,
            Pm::Pnpm => "pnpm"@,
            Pm::Yarn => "yarn"@,
            Pm::Npm => "npm"@,
        }
    }

    fn name(self) -> (res: &'static str)
        ensures
            res@ == self.label(),
    {
        match self {
            Pm::Bun => "bun",
            Pm::Deno => "deno",
            Pm::Pnpm => "pnpm",
            Pm::Yarn => "yarn",
            Pm::Npm => "npm",
        }
    }

    /// What stands in front of a script's name to run it.
    pub open spec fn prefix(self) -> Seq<char> {
        match self {
            Pm::Bun => "bun run"@,
            Pm::Deno => "deno task"@,
            Pm::Pnpm => "pnpm run"@,
            Pm::Yarn => "yarn"@,
            Pm::Npm => "npm run"@,
        }
    }

    fn run_prefix(self) -> (res: &'static str)
        ensures
            res@ == self.prefix(),
    {
        match self {
            Pm::Bun => "bun run",
            Pm::Deno => "deno task",
            Pm::Pnpm => "pnpm run",
            Pm::Yarn => "yarn",
            Pm::Npm => "npm run",
        }
    }

    /// The command that runs the tests.
    pub open spec fn test_command(self) -> Seq<char> {
        match self {
            Pm::Npm => "npm test"@,
            Pm::Yarn => "yarn test"@,
            Pm::Bun => "bun test"@,
            _ => self.prefix() + " test"@,
        }
    }

    /// The package manager of a project, by its lock files.
    pub open spec fn of(facts: Facts) -> Option<Pm> {
        if facts.has_path("bun.lock"@) || facts.has_path("bun.lockb"@) {
            Some(Pm::Bun)
        } else if facts.has_path("deno.lock"@) || facts.has_path("deno.json"@) || facts.has_path(
            "deno.jsonc"@,
        ) {
            Some(Pm::Deno)
        } else if !facts.has_path("package.json"@) {
            None
        } else if facts.has_path("pnpm-lock.yaml"@) {
            Some(Pm::Pnpm)
        } else if facts.has_path("yarn.lock"@) {
            Some(Pm::Yarn)
        } else {
            Some(Pm::Npm)
        }
    }

    fn pick(facts: &Facts) -> (res: Option<Pm>)
        ensures
            res == Pm::of(*facts),
    {
        if facts.has("bun.lock") || facts.has("bun.lockb") {
            return Some(Pm::Bun);
        }
        if facts.has("deno.lock") || facts.has("deno.json") || facts.has("deno.jsonc") {
            return Some(Pm::Deno);
        }
        if !facts.has("package.json") {
            return None;
        }
        if facts.has("pnpm-lock.yaml") {
            return Some(Pm::Pnpm);
        }
        if facts.has("yarn.lock") {
            return Some(Pm::Yarn);
        }
        Some(Pm::Npm)
    }
}

/// The commands of a Node project.
pub open spec fn node_commands(pm: Pm) -> Seq<detector::FragmentModel> {
    seq![
        detector::one_line("dev"@, "Start the dev server"@, pm.prefix() + " dev"@).fragment(),
        detector::one_line("build"@, "Build for production"@, pm.prefix() + " build"@).fragment(),
        detector::one_line("test"@, "Run tests"@, pm.test_command()).forwarding().fragment(),
        detector::one_line("lint"@, "Run linters"@, pm.prefix() + " lint"@).fragment(),
    ]
}

fn node_list(pm: Pm) -> (res: Vec<Fragment>)
    ensures
        res.deep_view() == node_commands(pm),
{
    let prefix = pm.run_prefix();
    let dev = concat(prefix, " dev");
    let build = concat(prefix, " build");
    let test = match pm {
        Pm::Npm => "npm test".to_owned(),
        Pm::Yarn => "yarn test".to_owned(),
        Pm::Bun => "bun test".to_owned(),
        _ => concat(prefix, " test"),
    };
    let lint = concat(prefix, " lint");
    let res = vec![
        Fragment::Command(CommandFragment::shell("dev", "Start the dev server", dev.as_str())),
        Fragment::Command(CommandFragment::shell("build", "Build for production", build.as_str())),
        Fragment::Command(CommandFragment::shell("test", "Run tests", test.as_str()).with_forward_args()),
        Fragment::Command(CommandFragment::shell("lint", "Run linters", lint.as_str())),
    ];
    assert(res.deep_view() =~= node_commands(pm));
    res
}

impl Detector for Node {
    open spec fn finds(&self, facts: Facts) -> Option<detector::FindingModel> {
        match Pm::of(facts) {
            Some(pm) => Some(
                detector::FindingModel {
                    ecosystem: "node"@,
                    tool: Some(pm.label()),
                    fragments: node_commands(pm),
                    notes: note("Detected Node project; using `"@ + pm.label() + "` for scripts."@),
                },
            ),
            None => None,
        }
    }

    fn detect(&self, facts: &Facts) -> (res: Option<Finding>) {
        match Pm::pick(facts) {
            Some(pm) => Some(
                Finding {
                    ecosystem: "node",
                    tool: Some(pm.name().to_owned()),
                    fragments: node_list(pm),
                    notes: one_note(
                        concat3("Detected Node project; using `", pm.name(), "` for scripts."),
                    ),
                },
            ),
            None => None,
        }
    }
}

/// The kinds of PHP projects.
#[derive(Debug, Clone, Copy, PartialEq, Eq, Structural)]
pub enum Flavor {
    Laravel,
    Symfony,
    Vanilla,
}

impl Flavor {
    /// The kind of a PHP project.
    pub open spec fn of(facts: Facts) -> Flavor {
        if facts.has_path("artisan"@) {
            Flavor::Laravel
        } else if facts.has_path("symfony.lock"@) || facts.has_path("bin/console"@) {
            Flavor::Symfony
        } else {
            Flavor::Vanilla
        }
    }

    fn pick(facts: &Facts) -> (res: Flavor)
        ensures
            res == Flavor::of(*facts),
    {
        if facts.has("artisan") {
            return Flavor::Laravel;
        }
        if facts.has("symfony.lock") || facts.has("bin/console") {
            return Flavor::Symfony;
        }
        Flavor::Vanilla
    }

    /// The name of the tool.
    pub open spec fn label(self) -> Seq<char> {
        match self {
            Flavor::Laravel => "laravel"@,
            Flavor::Symfony => "symfony"@,
            Flavor::Vanilla => "composer"@,
        }
    }

    fn tool(self) -> (res: &'static str)
        ensures
            res@ == self.label(),
    {
        match self {
            Flavor::Laravel => "laravel",
            Flavor::Symfony => "symfony",
            Flavor::Vanilla => "composer",
        }
    }
}

/// The commands of a Laravel project.
pub open spec fn laravel_commands() -> Seq<detector::FragmentModel> {
    seq![
        detector::one_line("install"@, "Install dependencies"@, "composer install"@).fragment(),
        detector::one_line("test"@, "Run tests"@, "composer test"@).forwarding().fragment(),
        detector::one_line("artisan"@, "Run an artisan command"@, "php artisan"@).interactive().forwarding().fragment(),
        detector::one_line("migrate"@, "Run database migrations"@, "php artisan migrate"@).forwarding().fragment(),
    ]
}

fn laravel_list() -> (res: Vec<Fragment>)
    ensures
        res.deep_view() == laravel_commands(),
{
    let res = vec![
        Fragment::Command(CommandFragment::shell("install", "Install dependencies", "composer install")),
        Fragment::Command(CommandFragment::shell("test", "Run tests", "composer test").with_forward_args()),
        Fragment::Command(CommandFragment::shell("artisan", "Run an artisan command", "php artisan").with_tty().with_forward_args()),
        Fragment::Command(CommandFragment::shell("migrate", "Run database migrations", "php artisan migrate").with_forward_args()),
    ];
    assert(res.deep_view() =~= laravel_commands());
    res
}

/// The commands of a Symfony project.
pub open spec fn symfony_commands() -> Seq<detector::FragmentModel> {
    seq![
        detector::one_line("install"@, "Install dependencies"@, "composer install"@).fragment(),
        detector::one_line("test"@, "Run tests"@, "composer test"@).forwarding().fragment(),
        detector::one_line("console"@, "Run a Symfony console command"@, "php bin/console"@).interactive().forwarding().fragment(),
    ]
}

fn symfony_list() -> (res: Vec<Fragment>)
    ensures
        res.deep_view() == symfony_commands(),
{
    let res = vec![
        Fragment::Command(CommandFragment::shell("install", "Install dependencies", "composer install")),
        Fragment::Command(CommandFragment::shell("test", "Run tests", "composer test").with_forward_args()),
        Fragment::Command(CommandFragment::shell("console", "Run a Symfony console command", "php bin/console").with_tty().with_forward_args()),
    ];
    assert(res.deep_view() =~= symfony_commands());
    res
}

/// The commands of another PHP project.
pub open spec fn composer_commands() -> Seq<detector::FragmentModel> {
    seq![
        detector::one_line("install"@, "Install dependencies"@, "composer install"@).fragment(),
        detector::one_line("test"@, "Run tests"@, "composer test"@).forwarding().fragment(),
    ]
}

fn composer_list() -> (res: Vec<Fragment>)
    ensures
        res.deep_view() == composer_commands(),
{
    let res = vec![
        Fragment::Command(CommandFragment::shell("install", "Install dependencies", "composer install")),
        Fragment::Command(CommandFragment::shell("test", "Run tests", "composer test").with_forward_args()),
    ];
    assert(res.deep_view() =~= composer_commands());
    res
}

/// The commands of a PHP project.
pub open spec fn php_commands(flavor: Flavor) -> Seq<detector::FragmentModel> {
    match flavor {
        Flavor::Laravel => laravel_commands(),
        Flavor::Symfony => symfony_commands(),
        Flavor::Vanilla => composer_commands(),
    }
}

impl Detector for Php {
    open spec fn finds(&self, facts: Facts) -> Option<detector::FindingModel> {
        if facts.has_path("composer.json"@) || facts.has_path("artisan"@) {
            let flavor = Flavor::of(facts);
            Some(
                detector::FindingModel {
                    ecosystem: "php"@,
                    tool: Some(flavor.label()),
                    fragments: php_commands(flavor),
                    notes: note("Detected PHP / "@ + flavor.label() + "."@),
                },
            )
        } else {
            None
        }
    }

    fn detect(&self, facts: &Facts) -> (res: Option<Finding>) {
        if !facts.has("composer.json") && !facts.has("artisan") {
            return None;
        }
        let flavor = Flavor::pick(facts);
        let fragments = match flavor {
            Flavor::Laravel => laravel_list(),
            Flavor::Symfony => symfony_list(),
            Flavor::Vanilla => composer_list(),
        };
        Some(
            Finding {
                ecosystem: "php",
                tool: Some(flavor.tool().to_owned()),
                fragments,
                notes: one_note(concat3("Detected PHP / ", flavor.tool(), ".")),
            },
        )
    }
}

/// The tools of Python projects.
#[derive(Debug, Clone, Copy, PartialEq, Eq, Structural)]
pub enum Tool {
    Uv,
    Poetry,
    Pdm,
    Pipenv,
    Pip,
}

impl Tool {
    /// The name of the program.
    pub open spec fn label(self) -> Seq<char> {
        match self {
            Tool::Uv => "uv"@,
            Tool::Poetry => "poetry"@,
            Tool::Pdm => "pdm"@,
            Tool::Pipenv => "pipenv"@,
            Tool::Pip => "pip"@,
        }
    }

    fn name(self) -> (res: &'static str)
        ensures
            res@ == self.label(),
    {
        match self {
            Tool::Uv => "uv",
            Tool::Poetry => "poetry",
            Tool::Pdm => "pdm",
            Tool::Pipenv => "pipenv",
            Tool::Pip => "pip",
        }
    }

    /// The tool of a project, by its lock files.
    pub open spec fn of(facts: Facts) -> Option<Tool> {
        if facts.has_path("uv.lock"@) {
            Some(Tool::Uv)
        } else if facts.has_path("poetry.lock"@) {
            Some(Tool::Poetry)
        } else if facts.has_path("pdm.lock"@) {
            Some(Tool::Pdm)
        } else if facts.has_path("Pipfile.lock"@) || facts.has_path("Pipfile"@) {
            Some(Tool::Pipenv)
        } else if facts.has_path("requirements.txt"@) {
            Some(Tool::Pip)
        } else if facts.has_path("pyproject.toml"@) {
            Some(Tool::Uv)
        } else {
            None
        }
    }

    fn pick(facts: &Facts) -> (res: Option<Tool>)
        ensures
            res == Tool::of(*facts),
    {
        if facts.has("uv.lock") {
            return Some(Tool::Uv);
        }
        if facts.has("poetry.lock") {
            return Some(Tool::Poetry);
        }
        if facts.has("pdm.lock") {
            return Some(Tool::Pdm);
        }
        if facts.has("Pipfile.lock") || facts.has("Pipfile") {
            return Some(Tool::Pipenv);
        }
        if facts.has("requirements.txt") {
            return Some(Tool::Pip);
        }
        if facts.has("pyproject.toml") {
            return Some(Tool::Uv);
        }
        None
    }
}

/// The commands of a project that uses uv.
pub open spec fn uv_commands() -> Seq<detector::FragmentModel> {
    seq![
        detector::one_line("install"@, "Sync dependencies"@, "uv sync"@).fragment(),
        detector::one_line("test"@, "Run tests"@, "uv run pytest"@).forwarding().fragment(),
        detector::one_line("lint"@, "Run ruff"@, "uv run ruff check"@).fragment(),
    ]
}

fn uv_list() -> (res: Vec<Fragment>)
    ensures
        res.deep_view() == uv_commands(),
{
    let res = vec![
        Fragment::Command(CommandFragment::shell("install", "Sync dependencies", "uv sync")),
        Fragment::Command(CommandFragment::shell("test", "Run tests", "uv run pytest").with_forward_args()),
        Fragment::Command(CommandFragment::shell("lint", "Run ruff", "uv run ruff check")),
    ];
    assert(res.deep_view() =~= uv_commands());
    res
}

/// Installing and testing.
pub open spec fn python_pair(install: Seq<char>, test: Seq<char>) -> Seq<detector::FragmentModel> {
    seq![
        detector::one_line("install"@, "Install dependencies"@, install).fragment(),
        detector::one_line("test"@, "Run tests"@, test).forwarding().fragment(),
    ]
}

fn python_pair_list(install: &str, test: &str) -> (res: Vec<Fragment>)
    ensures
        res.deep_view() == python_pair(install@, test@),
{
    let res = vec![
        Fragment::Command(CommandFragment::shell("install", "Install dependencies", install)),
        Fragment::Command(CommandFragment::shell("test", "Run tests", test).with_forward_args()),
    ];
    assert(res.deep_view() =~= python_pair(install@, test@));
    res
}

/// The commands of a Python project.
pub open spec fn python_commands(tool: Tool) -> Seq<detector::FragmentModel> {
    match tool {
        Tool::Uv => uv_commands(),
        Tool::Poetry => python_pair("poetry install"@, "poetry run pytest"@),
        Tool::Pdm => python_pair("pdm install"@, "pdm run pytest"@),
        Tool::Pipenv => python_pair("pipenv install --dev"@, "pipenv run pytest"@),
        Tool::Pip => python_pair("pip install -r requirements.txt"@, "pytest"@),
    }
}

impl Detector for Python {
    open spec fn finds(&self, facts: Facts) -> Option<detector::FindingModel> {
        match Tool::of(facts) {
            Some(tool) => Some(
                detector::FindingModel {
                    ecosystem: "python"@,
                    tool: Some(tool.label()),
                    fragments: python_commands(tool),
                    notes: note("Detected Python project; using `"@ + tool.label() + "`."@),
                },
            ),
            None => None,
        }
    }

    fn detect(&self, facts: &Facts) -> (res: Option<Finding>) {
        let tool = match Tool::pick(facts) {
            Some(tool) => tool,
            None => return None,
        };
        let fragments = match tool {
            Tool::Uv => uv_list(),
            Tool::Poetry => python_pair_list("poetry install", "poetry run pytest"),
            Tool::Pdm => python_pair_list("pdm install", "pdm run pytest"),
            Tool::Pipenv => python_pair_list("pipenv install --dev", "pipenv run pytest"),
            Tool::Pip => python_pair_list("pip install -r requirements.txt", "pytest"),
        };
        Some(
            Finding {
                ecosystem: "python",
                tool: Some(tool.name().to_owned()),
                fragments,
                notes: one_note(concat3("Detected Python project; using `", tool.name(), "`.")),
            },
        )
    }
}

/// The commands of a Rails project.
pub open spec fn rails_commands() -> Seq<detector::FragmentModel> {
    seq![
        detector::one_line("install"@, "Install gems"@, "bundle install"@).fragment(),
        detector::one_line("console"@, "Rails console"@, "bin/rails console"@).interactive().fragment(),
        detector::one_line("migrate"@, "Run migrations"@, "bin/rails db:migrate"@).forwarding().fragment(),
        detector::one_line("test"@, "Run tests"@, "bin/rails test"@).forwarding().fragment(),
    ]
}

fn rails_list() -> (res: Vec<Fragment>)
    ensures
        res.deep_view() == rails_commands(),
{
    let res = vec![
        Fragment::Command(CommandFragment::shell("install", "Install gems", "bundle install")),
        Fragment::Command(CommandFragment::shell("console", "Rails console", "bin/rails console").with_tty()),
        Fragment::Command(CommandFragment::shell("migrate", "Run migrations", "bin/rails db:migrate").with_forward_args()),
        Fragment::Command(CommandFragment::shell("test", "Run tests", "bin/rails test").with_forward_args()),
    ];
    assert(res.deep_view() =~= rails_commands());
    res
}

/// The commands of another Ruby project.
pub open spec fn bundler_commands() -> Seq<detector::FragmentModel> {
    seq![
        detector::one_line("install"@, "Install gems"@, "bundle install"@).fragment(),
        detector::one_line("test"@, "Run tests"@, "bundle exec rake test"@).forwarding().fragment(),
    ]
}

fn bundler_list() -> (res: Vec<Fragment>)
    ensures
        res.deep_view() == bundler_commands(),
{
    let res = vec![
        Fragment::Command(CommandFragment::shell("install", "Install gems", "bundle install")),
        Fragment::Command(CommandFragment::shell("test", "Run tests", "bundle exec rake test").with_forward_args()),
    ];
    assert(res.deep_view() =~= bundler_commands());
    res
}

/// Whether a Ruby project is a Rails one.
pub open spec fn rails_project(facts: Facts) -> bool {
    facts.has_path("bin/rails"@) || facts.has_path("config/application.rb"@)
}

impl Detector for Ruby {
    open spec fn finds(&self, facts: Facts) -> Option<detector::FindingModel> {
        if facts.has_path("Gemfile"@) {
            if rails_project(facts) {
                Some(
                    detector::FindingModel {
                        ecosystem: "ruby"@,
                        tool: Some("rails"@),
                        fragments: rails_commands(),
                        notes: note("Detected Gemfile + Rails."@),
                    },
                )
            } else {
                Some(
                    detector::FindingModel {
                        ecosystem: "ruby"@,
                        tool: Some("bundler"@),
                        fragments: bundler_commands(),
                        notes: note("Detected Gemfile."@),
                    },
                )
            }
        } else {
            None
        }
    }

    fn detect(&self, facts: &Facts) -> (res: Option<Finding>) {
        if !facts.has("Gemfile") {
            return None;
        }
        if facts.has("bin/rails") || facts.has("config/application.rb") {
            Some(
                Finding {
                    ecosystem: "ruby",
                    tool: Some("rails".to_owned()),
                    fragments: rails_list(),
                    notes: one_note("Detected Gemfile + Rails.".to_owned()),
                },
            )
        } else {
            Some(
                Finding {
                    ecosystem: "ruby",
                    tool: Some("bundler".to_owned()),
                    fragments: bundler_list(),
                    notes: one_note("Detected Gemfile.".to_owned()),
                },
            )
        }
    }
}

/// Whether a Cargo project is a workspace.
pub open spec fn cargo_workspace(facts: Facts) -> bool {
    facts.cargo_toml matches Some(s) && text::has_substring(s@, "[workspace]"@)
}

/// The check command of a Cargo project, in three steps.
pub open spec fn check_command(scope: Seq<char>) -> detector::CommandModel {
    detector::CommandModel {
        name: "check"@,
        desc: "Format check + clippy + test"@,
        run: detector::StepsModel::Steps(
            seq![
                "cargo fmt --all --check"@,
                "cargo clippy"@ + scope + " --all-targets -- -D warnings"@,
                "test"@,
            ],
        ),
        in_service: None,
        tty: None,
        forward_args: None,
        needs: seq![],
    }
}

/// The commands of a Cargo project.
pub open spec fn cargo_commands(scope: Seq<char>) -> Seq<detector::FragmentModel> {
    seq![
        detector::one_line("build"@, "Build"@, "cargo build"@ + scope).forwarding().fragment(),
        detector::one_line("test"@, "Run tests"@, "cargo test"@ + scope).forwarding().fragment(),
        detector::one_line("fmt"@, "Format code"@, "cargo fmt --all"@).fragment(),
        check_command(scope).fragment(),
    ]
}

fn cargo_list(scope: &str) -> (res: Vec<Fragment>)
    ensures
        res.deep_view() == cargo_commands(scope@),
{
    let build = concat("cargo build", scope);
    let test = concat("cargo test", scope);
    let clippy = concat3("cargo clippy", scope, " --all-targets -- -D warnings");
    let steps = vec!["cargo fmt --all --check".to_owned(), clippy, "test".to_owned()];
    let check = CommandFragment {
        name: "check".to_owned(),
        desc: "Format check + clippy + test".to_owned(),
        run: RunSpec::Steps(steps),
        in_service: None,
        tty: None,
        forward_args: None,
        needs: Vec::new(),
    };
    assert(steps.deep_view() =~= seq![
        "cargo fmt --all --check"@,
        "cargo clippy"@ + scope@ + " --all-targets -- -D warnings"@,
        "test"@,
    ]);
    assert(check.needs.deep_view() =~= Seq::<Seq<char>>::empty());
    assert(check.deep_view() == check_command(scope@));
    let res = vec![
        Fragment::Command(
            CommandFragment::shell("build", "Build", build.as_str()).with_forward_args(),
        ),
        Fragment::Command(
            CommandFragment::shell("test", "Run tests", test.as_str()).with_forward_args(),
        ),
        Fragment::Command(CommandFragment::shell("fmt", "Format code", "cargo fmt --all")),
        Fragment::Command(check),
    ];
    assert(res.deep_view() =~= cargo_commands(scope@));
    res
}

impl Detector for Rust {
    open spec fn finds(&self, facts: Facts) -> Option<detector::FindingModel> {
        if facts.has_path("Cargo.toml"@) {
            if cargo_workspace(facts) {
                Some(
                    detector::FindingModel {
                        ecosystem: "rust"@,
                        tool: Some("cargo"@),
                        fragments: cargo_commands(" --workspace"@),
                        notes: note(
                            "Detected Cargo.toml (workspace); suggested cargo commands."@,
                        ),
                    },
                )
            } else {
                Some(
                    detector::FindingModel {
                        ecosystem: "rust"@,
                        tool: Some("cargo"@),
                        fragments: cargo_commands(""@),
                        notes: note("Detected Cargo.toml; suggested cargo commands."@),
                    },
                )
            }
        } else {
            None
        }
    }

    fn detect(&self, facts: &Facts) -> (res: Option<Finding>) {
        if !facts.has("Cargo.toml") {
            return None;
        }
        let workspace = match &facts.cargo_toml {
            Some(s) => text::contains(s.as_str(), "[workspace]"),
            None => false,
        };
        if workspace {
            Some(
                Finding {
                    ecosystem: "rust",
                    tool: Some("cargo".to_owned()),
                    fragments: cargo_list(" --workspace"),
                    notes: one_note(
                        "Detected Cargo.toml (workspace); suggested cargo commands.".to_owned(),
                    ),
                },
            )
        } else {
            Some(
                Finding {
                    ecosystem: "rust",
                    tool: Some("cargo".to_owned()),
                    fragments: cargo_list(""),
                    notes: one_note("Detected Cargo.toml; suggested cargo commands.".to_owned()),
                },
            )
        }
    }
}

// ---------------------------------------------------------------------------
// Registry
// ---------------------------------------------------------------------------
/// Any of the detectors.
#[derive(Debug, Clone, Copy, PartialEq, Eq, Structural)]
pub enum Known {
    Compose,
    Devcontainer,
    DotEnv,
    Go,
    Node,
    Php,
    Python,
    Ruby,
    Rust,
}

impl Detector for Known {
    open spec fn finds(&self, facts: Facts) -> Option<detector::FindingModel> {
        match self {
            Known::Compose => Compose.finds(facts),
            Known::Devcontainer => Devcontainer.finds(facts),
            Known::DotEnv => DotEnv.finds(facts),
            Known::Go => Go.finds(facts),
            Known::Node => Node.finds(facts),
            Known::Php => Php.finds(facts),
            Known::Python => Python.finds(facts),
            Known::Ruby => Ruby.finds(facts),
            Known::Rust => Rust.finds(facts),
        }
    }

    fn detect(&self, facts: &Facts) -> (res: Option<Finding>) {
        match self {
            Known::Compose => Compose.detect(facts),
            Known::Devcontainer => Devcontainer.detect(facts),
            Known::DotEnv => DotEnv.detect(facts),
            Known::Go => Go.detect(facts),
            Known::Node => Node.detect(facts),
            Known::Php => Php.detect(facts),
            Known::Python => Python.detect(facts),
            Known::Ruby => Ruby.detect(facts),
            Known::Rust => Rust.detect(facts),
        }
    }
}

/// The detectors in the order in which they are asked. Those of containers come
/// first: a section with one owner goes to the first that claims it.
pub open spec fn all_detectors() -> Seq<Known> {
    seq![
        Known::Compose,
        Known::Devcontainer,
        Known::DotEnv,
        Known::Go,
        Known::Node,
        Known::Php,
        Known::Python,
        Known::Ruby,
        Known::Rust,
    ]
}

/// The detectors in the order in which they are asked.
pub fn registry() -> (res: Vec<Known>)
    ensures
        res@ == all_detectors(),
{
    vec![
        Known::Compose,
        Known::Devcontainer,
        Known::DotEnv,
        Known::Go,
        Known::Node,
        Known::Php,
        Known::Python,
        Known::Ruby,
        Known::Rust,
    ]
}

/// What the first `n` detectors contribute.
pub open spec fn found(facts: Facts, n: nat) -> Seq<detector::FindingModel>
    decreases n,
{
    if n == 0 {
        seq![]
    } else {
        let before = found(facts, (n - 1) as nat);
        match all_detectors()[n - 1].finds(facts) {
            Some(f) => before.push(f),
            None => before,
        }
    }
}

/// What the detectors contribute for a project.
pub fn detect_all(facts: &Facts) -> (res: Vec<Finding>)
    ensures
        res.deep_view() == found(*facts, all_detectors().len()),
{
    let detectors = registry();
    let mut out: Vec<Finding> = Vec::new();
    let mut i: usize = 0;
    assert(out.deep_view() =~= found(*facts, 0));
    while i < detectors.len()
        invariant
            i <= detectors@.len(),
            detectors@ == all_detectors(),
            out.deep_view() == found(*facts, i as nat),
        decreases detectors@.len() - i,
    {
        let ghost before = out.deep_view();
        match detectors[i].detect(facts) {
            Some(f) => {
                out.push(f);
                assert(out.deep_view() =~= before.push(f.deep_view()));
            },
            None => {},
        }
        i += 1;
    }
    out
}

/// The paths that the detectors look for.
pub fn signals() -> (res: Vec<&'static str>)
    ensures
        res.deep_view() == signal_paths(),
{
    let res = vec![
        "docker-compose.yml",
        "docker-compose.yaml",
        "compose.yml",
        "compose.yaml",
        ".devcontainer/devcontainer.json",
        ".devcontainer.json",
        ".env",
        ".env.local",
        "go.mod",
        "bun.lock",
        "bun.lockb",
        "deno.lock",
        "deno.json",
        "deno.jsonc",
        "package.json",
        "pnpm-lock.yaml",
        "yarn.lock",
        "artisan",
        "symfony.lock",
        "bin/console",
        "composer.json",
        "uv.lock",
        "poetry.lock",
        "pdm.lock",
        "Pipfile.lock",
        "Pipfile",
        "requirements.txt",
        "pyproject.toml",
        "bin/rails",
        "config/application.rb",
        "Gemfile",
        "Cargo.toml",
    ];
    assert(res.deep_view() =~= signal_paths());
    res
}

/// The paths that the detectors look for.
pub open spec fn signal_paths() -> Seq<Seq<char>> {
    seq![
        "docker-compose.yml"@,
        "docker-compose.yaml"@,
        "compose.yml"@,
        "compose.yaml"@,
        ".devcontainer/devcontainer.json"@,
        ".devcontainer.json"@,
        ".env"@,
        ".env.local"@,
        "go.mod"@,
        "bun.lock"@,
        "bun.lockb"@,
        "deno.lock"@,
        "deno.json"@,
        "deno.jsonc"@,
        "package.json"@,
        "pnpm-lock.yaml"@,
        "yarn.lock"@,
        "artisan"@,
        "symfony.lock"@,
        "bin/console"@,
        "composer.json"@,
        "uv.lock"@,
        "poetry.lock"@,
        "pdm.lock"@,
        "Pipfile.lock"@,
        "Pipfile"@,
        "requirements.txt"@,
        "pyproject.toml"@,
        "bin/rails"@,
        "config/application.rb"@,
        "Gemfile"@,
        "Cargo.toml"@,
    ]
}

/// Whether a fragment suggests a command of one line under a name.
pub open spec fn suggests(f: detector::FragmentModel, name: Seq<char>, run: Seq<char>) -> bool {
    &&& f is Command
    &&& f->Command_0.name == name
    &&& f->Command_0.run == detector::StepsModel::Single(run)
    &&& f->Command_0.in_service is None
    &&& f->Command_0.needs.len() == 0
}

/// Containers are found by their files: a compose file under one of four names, the
/// first of these; a development container in one of two places, the first of these;
/// and both environment files.
pub proof fn law_containers_and_environments_are_found(facts: Facts)
    ensures
        ({
            let there = |p: Seq<char>| facts.present.deep_view().contains(p);
            let compose = Compose.finds(facts);
            let dev = Devcontainer.finds(facts);
            let env = DotEnv.finds(facts);
            &&& compose is Some <==> there("docker-compose.yml"@) || there("docker-compose.yaml"@)
                || there("compose.yml"@) || there("compose.yaml"@)
            &&& there("docker-compose.yml"@) ==> compose->0.tool == Some("docker-compose.yml"@)
            &&& compose is Some ==> compose->0.fragments.len() == 1 && compose->0.fragments[0]
                == (detector::FragmentModel::Runtime {
                backend: "compose"@,
                default_service: None,
                compose_passthrough: true,
                service_passthrough: true,
            })
            &&& dev is Some <==> there(".devcontainer/devcontainer.json"@) || there(
                ".devcontainer.json"@,
            )
            &&& there(".devcontainer/devcontainer.json"@) ==> dev->0.fragments == seq![
                detector::FragmentModel::Devcontainer {
                    path: ".devcontainer/devcontainer.json"@,
                },
            ]
            &&& !there(".devcontainer/devcontainer.json"@) && there(".devcontainer.json"@)
                ==> dev->0.fragments == seq![
                detector::FragmentModel::Devcontainer { path: ".devcontainer.json"@ },
            ]
            &&& env is Some <==> there(".env"@) || there(".env.local"@)
            &&& there(".env"@) ==> env->0.fragments.contains(
                detector::FragmentModel::EnvFile(".env"@),
            )
            &&& there(".env.local"@) ==> env->0.fragments.contains(
                detector::FragmentModel::EnvFile(".env.local"@),
            )
        }),
{
    let files = env_files(facts);
    if let Some(env) = DotEnv.finds(facts) {
        assert(env.fragments.len() == files.len());
        if facts.has_path(".env"@) {
            assert(files[0] == ".env"@);
            assert(env.fragments[0] == detector::FragmentModel::EnvFile(".env"@));
        }
        if facts.has_path(".env.local"@) {
            let i = files.len() - 1;
            assert(files[i] == ".env.local"@);
            assert(env.fragments[i] == detector::FragmentModel::EnvFile(".env.local"@));
        }
    }
    assert(facts.has_path(".env"@) ==> files.len() > 0);
    assert(facts.has_path(".env.local"@) ==> files.len() > 0);
}

/// Each language is found by its files, and no other way.
pub proof fn law_languages_are_found_by_their_files(facts: Facts)
    ensures
        ({
            let there = |p: Seq<char>| facts.present.deep_view().contains(p);
            &&& Go.finds(facts) is Some <==> there("go.mod"@)
            &&& Node.finds(facts) is Some <==> there("package.json"@) || there("bun.lock"@) || there(
                "bun.lockb"@,
            ) || there("deno.lock"@) || there("deno.json"@) || there("deno.jsonc"@)
            &&& Php.finds(facts) is Some <==> there("composer.json"@) || there("artisan"@)
            &&& Python.finds(facts) is Some <==> there("uv.lock"@) || there("poetry.lock"@) || there(
                "pdm.lock"@,
            ) || there("Pipfile.lock"@) || there("Pipfile"@) || there("requirements.txt"@) || there(
                "pyproject.toml"@,
            )
            &&& Ruby.finds(facts) is Some <==> there("Gemfile"@)
            &&& Rust.finds(facts) is Some <==> there("Cargo.toml"@)
        }),
{
}

/// The tool of a project goes by its lock file, the more particular one first.
pub proof fn law_tools_go_by_lock_files(facts: Facts)
    ensures
        ({
            let there = |p: Seq<char>| facts.present.deep_view().contains(p);
            let bun = there("bun.lock"@) || there("bun.lockb"@);
            let deno = there("deno.lock"@) || there("deno.json"@) || there("deno.jsonc"@);
            let node = Node.finds(facts);
            let python = Python.finds(facts);
            let php = Php.finds(facts);
            let ruby = Ruby.finds(facts);
            &&& bun ==> node->0.tool == Some("bun"@)
            &&& !bun && deno ==> node->0.tool == Some("deno"@)
            &&& !bun && !deno && there("package.json"@) && there("pnpm-lock.yaml"@) ==> node->0.tool
                == Some("pnpm"@)
            &&& !bun && !deno && there("package.json"@) && !there("pnpm-lock.yaml"@) && there(
                "yarn.lock"@,
            ) ==> node->0.tool == Some("yarn"@)
            &&& !bun && !deno && there("package.json"@) && !there("pnpm-lock.yaml"@) && !there(
                "yarn.lock"@,
            ) ==> node->0.tool == Some("npm"@)
            &&& there("uv.lock"@) ==> python->0.tool == Some("uv"@)
            &&& !there("uv.lock"@) && there("poetry.lock"@) ==> python->0.tool == Some("poetry"@)
            &&& !there("uv.lock"@) && !there("poetry.lock"@) && there("pdm.lock"@) ==> python->0.tool
                == Some("pdm"@)
            &&& php is Some && there("artisan"@) ==> php->0.tool == Some("laravel"@)
            &&& php is Some && !there("artisan"@) && (there("symfony.lock"@) || there("bin/console"@))
                ==> php->0.tool == Some("symfony"@)
            &&& php is Some && !there("artisan"@) && !there("symfony.lock"@) && !there("bin/console"@)
                ==> php->0.tool == Some("composer"@)
            &&& ruby is Some && (there("bin/rails"@) || there("config/application.rb"@))
                ==> ruby->0.tool == Some("rails"@)
            &&& ruby is Some && !(there("bin/rails"@) || there("config/application.rb"@))
                ==> ruby->0.tool == Some("bundler"@)
        }),
{
}

/// Each finding suggests the commands of its tool, under names that are alike across
/// languages: the tests can always be run.
pub proof fn law_tools_suggest_their_own_commands(pm: Pm, scope: Seq<char>)
    ensures
        go_commands().len() == 4,
        suggests(go_commands()[0], "build"@, "go build ./..."@),
        suggests(go_commands()[1], "test"@, "go test ./..."@),
        suggests(go_commands()[2], "run"@, "go run ."@),
        suggests(go_commands()[3], "vet"@, "go vet ./..."@),
        node_commands(pm).len() == 4,
        suggests(node_commands(pm)[0], "dev"@, pm.prefix() + " dev"@),
        suggests(node_commands(pm)[1], "build"@, pm.prefix() + " build"@),
        suggests(node_commands(pm)[2], "test"@, pm.test_command()),
        suggests(node_commands(pm)[3], "lint"@, pm.prefix() + " lint"@),
        laravel_commands().len() == 4,
        suggests(laravel_commands()[0], "install"@, "composer install"@),
        suggests(laravel_commands()[1], "test"@, "composer test"@),
        suggests(laravel_commands()[2], "artisan"@, "php artisan"@),
        suggests(laravel_commands()[3], "migrate"@, "php artisan migrate"@),
        symfony_commands().len() == 3,
        suggests(symfony_commands()[1], "test"@, "composer test"@),
        suggests(symfony_commands()[2], "console"@, "php bin/console"@),
        composer_commands().len() == 2,
        suggests(composer_commands()[1], "test"@, "composer test"@),
        uv_commands().len() == 3,
        suggests(uv_commands()[0], "install"@, "uv sync"@),
        suggests(uv_commands()[1], "test"@, "uv run pytest"@),
        suggests(uv_commands()[2], "lint"@, "uv run ruff check"@),
        suggests(python_commands(Tool::Poetry)[1], "test"@, "poetry run pytest"@),
        suggests(python_commands(Tool::Pdm)[1], "test"@, "pdm run pytest"@),
        suggests(python_commands(Tool::Pipenv)[1], "test"@, "pipenv run pytest"@),
        suggests(python_commands(Tool::Pip)[0], "install"@, "pip install -r requirements.txt"@),
        suggests(python_commands(Tool::Pip)[1], "test"@, "pytest"@),
        rails_commands().len() == 4,
        suggests(rails_commands()[0], "install"@, "bundle install"@),
        suggests(rails_commands()[1], "console"@, "bin/rails console"@),
        suggests(rails_commands()[2], "migrate"@, "bin/rails db:migrate"@),
        suggests(rails_commands()[3], "test"@, "bin/rails test"@),
        bundler_commands().len() == 2,
        suggests(bundler_commands()[1], "test"@, "bundle exec rake test"@),
        cargo_commands(scope).len() == 4,
        suggests(cargo_commands(scope)[0], "build"@, "cargo build"@ + scope),
        suggests(cargo_commands(scope)[1], "test"@, "cargo test"@ + scope),
        suggests(cargo_commands(scope)[2], "fmt"@, "cargo fmt --all"@),
        cargo_commands(scope)[3] is Command && cargo_commands(scope)[3]->Command_0.name == "check"@,
{
}

/// Which commands a finding has: those of its tool.
pub proof fn law_findings_have_the_commands_of_their_tool(facts: Facts)
    ensures
        Go.finds(facts) is Some ==> Go.finds(facts)->0.fragments == go_commands(),
        Node.finds(facts) is Some ==> Node.finds(facts)->0.fragments == node_commands(
            Pm::of(facts)->0,
        ) && Node.finds(facts)->0.tool == Some(Pm::of(facts)->0.label()),
        Php.finds(facts) is Some ==> {
            let f = Php.finds(facts)->0;
            &&& f.tool == Some("laravel"@) ==> f.fragments == laravel_commands()
            &&& f.tool == Some("symfony"@) ==> f.fragments == symfony_commands()
            &&& f.tool == Some("composer"@) ==> f.fragments == composer_commands()
        },
        Ruby.finds(facts) is Some ==> {
            let f = Ruby.finds(facts)->0;
            &&& f.tool == Some("rails"@) ==> f.fragments == rails_commands()
            &&& f.tool == Some("bundler"@) ==> f.fragments == bundler_commands()
        },
        Python.finds(facts) is Some ==> Python.finds(facts)->0.fragments == python_commands(
            Tool::of(facts)->0,
        ),
        Rust.finds(facts) is Some ==> Rust.finds(facts)->0.fragments == cargo_commands(
            if facts.cargo_toml is Some && text::has_substring(
                facts.cargo_toml->0@,
                "[workspace]"@,
            ) {
                " --workspace"@
            } else {
                ""@
            },
        ),
{
    reveal_strlit("laravel");
    reveal_strlit("symfony");
    reveal_strlit("composer");
    reveal_strlit("rails");
    reveal_strlit("bundler");
    assert("laravel"@[0] != "symfony"@[0] && "laravel"@[0] != "composer"@[0] && "symfony"@[0]
        != "composer"@[0]);
    assert("rails"@[0] != "bundler"@[0]);
}

/// Every detector is asked, and what each contributes is kept, in their order: the
/// container ones first.
pub proof fn law_every_detector_is_asked(facts: Facts)
    ensures
        lists::selects(
            found(facts, all_detectors().len()),
            |i: int| all_detectors()[i].finds(facts)->0,
            |i: int| all_detectors()[i].finds(facts) is Some,
            all_detectors().len(),
        ),
        all_detectors().len() == 9,
        all_detectors()[0] == Known::Compose,
        all_detectors()[1] == Known::Devcontainer,
        all_detectors()[2] == Known::DotEnv,
        all_detectors().no_duplicates(),
{
    lemma_found(facts, all_detectors().len());
}

proof fn lemma_found(facts: Facts, n: nat)
    requires
        n <= all_detectors().len(),
    ensures
        lists::selects(
            found(facts, n),
            |i: int| all_detectors()[i].finds(facts)->0,
            |i: int| all_detectors()[i].finds(facts) is Some,
            n,
        ),
    decreases n,
{
    let value = |i: int| all_detectors()[i].finds(facts)->0;
    let keep = |i: int| all_detectors()[i].finds(facts) is Some;
    if n == 0 {
        lists::lemma_selects_none(value, keep);
    } else {
        let m = (n - 1) as nat;
        lemma_found(facts, m);
        lists::lemma_selects_next(found(facts, m), value, keep, m);
    }
}

/// Whether two projects have the same ones of the paths that are looked for.
pub open spec fn same_signals(a: Facts, b: Facts) -> bool {
    forall|i: int|
        0 <= i < signal_paths().len() ==> a.has_path(#[trigger] signal_paths()[i]) == b.has_path(
            signal_paths()[i],
        )
}

/// Nothing but the paths that are looked for, and the manifest that is read, decides
/// what is found: projects that agree on these are found to be the same.
pub proof fn law_only_signals_decide(a: Facts, b: Facts, known: Known)
    requires
        same_signals(a, b),
        a.cargo_toml.deep_view() == b.cargo_toml.deep_view(),
    ensures
        known.finds(a) == known.finds(b),
{
    lemma_signals(a, b);
    assert(cargo_workspace(a) == cargo_workspace(b)) by {
        if a.cargo_toml is Some {
            assert(a.cargo_toml.deep_view() == Some(a.cargo_toml->0@));
        }
        if b.cargo_toml is Some {
            assert(b.cargo_toml.deep_view() == Some(b.cargo_toml->0@));
        }
    }
    assert(compose_file(a) == compose_file(b));
    assert(devcontainer_file(a) == devcontainer_file(b));
    assert(env_files(a) == env_files(b));
    assert(Pm::of(a) == Pm::of(b));
    assert(Flavor::of(a) == Flavor::of(b));
    assert(Tool::of(a) == Tool::of(b));
    assert(rails_project(a) == rails_project(b));
}

proof fn lemma_signals(a: Facts, b: Facts)
    requires
        same_signals(a, b),
    ensures
        a.has_path("docker-compose.yml"@) == b.has_path("docker-compose.yml"@),
        a.has_path("docker-compose.yaml"@) == b.has_path("docker-compose.yaml"@),
        a.has_path("compose.yml"@) == b.has_path("compose.yml"@),
        a.has_path("compose.yaml"@) == b.has_path("compose.yaml"@),
        a.has_path(".devcontainer/devcontainer.json"@) == b.has_path(".devcontainer/devcontainer.json"@),
        a.has_path(".devcontainer.json"@) == b.has_path(".devcontainer.json"@),
        a.has_path(".env"@) == b.has_path(".env"@),
        a.has_path(".env.local"@) == b.has_path(".env.local"@),
        a.has_path("go.mod"@) == b.has_path("go.mod"@),
        a.has_path("bun.lock"@) == b.has_path("bun.lock"@),
        a.has_path("bun.lockb"@) == b.has_path("bun.lockb"@),
        a.has_path("deno.lock"@) == b.has_path("deno.lock"@),
        a.has_path("deno.json"@) == b.has_path("deno.json"@),
        a.has_path("deno.jsonc"@) == b.has_path("deno.jsonc"@),
        a.has_path("package.json"@) == b.has_path("package.json"@),
        a.has_path("pnpm-lock.yaml"@) == b.has_path("pnpm-lock.yaml"@),
        a.has_path("yarn.lock"@) == b.has_path("yarn.lock"@),
        a.has_path("artisan"@) == b.has_path("artisan"@),
        a.has_path("symfony.lock"@) == b.has_path("symfony.lock"@),
        a.has_path("bin/console"@) == b.has_path("bin/console"@),
        a.has_path("composer.json"@) == b.has_path("composer.json"@),
        a.has_path("uv.lock"@) == b.has_path("uv.lock"@),
        a.has_path("poetry.lock"@) == b.has_path("poetry.lock"@),
        a.has_path("pdm.lock"@) == b.has_path("pdm.lock"@),
        a.has_path("Pipfile.lock"@) == b.has_path("Pipfile.lock"@),
        a.has_path("Pipfile"@) == b.has_path("Pipfile"@),
        a.has_path("requirements.txt"@) == b.has_path("requirements.txt"@),
        a.has_path("pyproject.toml"@) == b.has_path("pyproject.toml"@),
        a.has_path("bin/rails"@) == b.has_path("bin/rails"@),
        a.has_path("config/application.rb"@) == b.has_path("config/application.rb"@),
        a.has_path("Gemfile"@) == b.has_path("Gemfile"@),
        a.has_path("Cargo.toml"@) == b.has_path("Cargo.toml"@),
{
    let all = signal_paths();
    assert(all.len() == 32);
    assert(all[0] == "docker-compose.yml"@);
    assert(all[1] == "docker-compose.yaml"@);
    assert(all[2] == "compose.yml"@);
    assert(all[3] == "compose.yaml"@);
    assert(all[4] == ".devcontainer/devcontainer.json"@);
    assert(all[5] == ".devcontainer.json"@);
    assert(all[6] == ".env"@);
    assert(all[7] == ".env.local"@);
    assert(all[8] == "go.mod"@);
    assert(all[9] == "bun.lock"@);
    assert(all[10] == "bun.lockb"@);
    assert(all[11] == "deno.lock"@);
    assert(all[12] == "deno.json"@);
    assert(all[13] == "deno.jsonc"@);
    assert(all[14] == "package.json"@);
    assert(all[15] == "pnpm-lock.yaml"@);
    assert(all[16] == "yarn.lock"@);
    assert(all[17] == "artisan"@);
    assert(all[18] == "symfony.lock"@);
    assert(all[19] == "bin/console"@);
    assert(all[20] == "composer.json"@);
    assert(all[21] == "uv.lock"@);
    assert(all[22] == "poetry.lock"@);
    assert(all[23] == "pdm.lock"@);
    assert(all[24] == "Pipfile.lock"@);
    assert(all[25] == "Pipfile"@);
    assert(all[26] == "requirements.txt"@);
    assert(all[27] == "pyproject.toml"@);
    assert(all[28] == "bin/rails"@);
    assert(all[29] == "config/application.rb"@);
    assert(all[30] == "Gemfile"@);
    assert(all[31] == "Cargo.toml"@);
}

/// Whether a suggested command has that description, takes further arguments, and takes
/// the terminal.
pub open spec fn described(
    f: detector::FragmentModel,
    desc: Seq<char>,
    forwards: bool,
    terminal: bool,
) -> bool {
    &&& f is Command
    &&& f->Command_0.desc == desc
    &&& f->Command_0.forward_args == Some(true) <==> forwards
    &&& f->Command_0.forward_args != Some(false)
    &&& f->Command_0.tty == Some(true) <==> terminal
    &&& f->Command_0.tty != Some(false)
}

/// How the commands are described, which of them take further arguments, and which take
/// the terminal.
pub proof fn law_commands_are_described(pm: Pm, tool: Tool, scope: Seq<char>)
    ensures
        described(go_commands()[0], "Build"@, true, false),
        described(go_commands()[1], "Run tests"@, true, false),
        described(go_commands()[2], "Run the main package"@, true, false),
        described(go_commands()[3], "Run go vet"@, false, false),
        described(node_commands(pm)[0], "Start the dev server"@, false, false),
        described(node_commands(pm)[1], "Build for production"@, false, false),
        described(node_commands(pm)[2], "Run tests"@, true, false),
        described(node_commands(pm)[3], "Run linters"@, false, false),
        described(laravel_commands()[0], "Install dependencies"@, false, false),
        described(laravel_commands()[1], "Run tests"@, true, false),
        described(laravel_commands()[2], "Run an artisan command"@, true, true),
        described(laravel_commands()[3], "Run database migrations"@, true, false),
        described(symfony_commands()[0], "Install dependencies"@, false, false),
        described(symfony_commands()[1], "Run tests"@, true, false),
        described(symfony_commands()[2], "Run a Symfony console command"@, true, true),
        described(composer_commands()[0], "Install dependencies"@, false, false),
        described(composer_commands()[1], "Run tests"@, true, false),
        described(uv_commands()[0], "Sync dependencies"@, false, false),
        described(uv_commands()[1], "Run tests"@, true, false),
        described(uv_commands()[2], "Run ruff"@, false, false),
        described(rails_commands()[0], "Install gems"@, false, false),
        described(rails_commands()[1], "Rails console"@, false, true),
        described(rails_commands()[2], "Run migrations"@, true, false),
        described(rails_commands()[3], "Run tests"@, true, false),
        described(bundler_commands()[0], "Install gems"@, false, false),
        described(bundler_commands()[1], "Run tests"@, true, false),
        described(cargo_commands(scope)[0], "Build"@, true, false),
        described(cargo_commands(scope)[1], "Run tests"@, true, false),
        described(cargo_commands(scope)[2], "Format code"@, false, false),
        described(cargo_commands(scope)[3], "Format check + clippy + test"@, false, false),
        tool != Tool::Uv ==> described(python_commands(tool)[0], "Install dependencies"@, false, false),
        tool != Tool::Uv ==> described(python_commands(tool)[1], "Run tests"@, true, false),
{
}

/// How dependencies are installed, tests are run and scripts are started, tool by tool.
pub proof fn law_tools_have_their_own_words(scope: Seq<char>)
    ensures
        Pm::Bun.prefix() == "bun run"@ && Pm::Deno.prefix() == "deno task"@,
        Pm::Pnpm.prefix() == "pnpm run"@ && Pm::Yarn.prefix() == "yarn"@,
        Pm::Npm.prefix() == "npm run"@,
        Pm::Npm.test_command() == "npm test"@ && Pm::Yarn.test_command() == "yarn test"@,
        Pm::Bun.test_command() == "bun test"@,
        Pm::Deno.test_command() == "deno task"@ + " test"@,
        Pm::Pnpm.test_command() == "pnpm run"@ + " test"@,
        suggests(symfony_commands()[0], "install"@, "composer install"@),
        suggests(composer_commands()[0], "install"@, "composer install"@),
        suggests(bundler_commands()[0], "install"@, "bundle install"@),
        suggests(python_commands(Tool::Poetry)[0], "install"@, "poetry install"@),
        suggests(python_commands(Tool::Pdm)[0], "install"@, "pdm install"@),
        suggests(python_commands(Tool::Pipenv)[0], "install"@, "pipenv install --dev"@),
        cargo_commands(scope)[3]->Command_0.run == detector::StepsModel::Steps(
            seq![
                "cargo fmt --all --check"@,
                "cargo clippy"@ + scope + " --all-targets -- -D warnings"@,
                "test"@,
            ],
        ),
        python_commands(Tool::Uv) == uv_commands(),
{
}

/// What is told of each finding, and under which name it goes.
pub proof fn law_findings_are_told(facts: Facts)
    ensures
        Go.finds(facts) matches Some(f) ==> f.ecosystem == "go"@ && f.tool == Some("go"@) && f.notes
            == seq!["Detected go.mod; suggested go commands."@],
        Node.finds(facts) matches Some(f) ==> f.ecosystem == "node"@ && f.notes == seq![
            "Detected Node project; using `"@ + f.tool->0 + "` for scripts."@,
        ],
        Php.finds(facts) matches Some(f) ==> f.ecosystem == "php"@ && f.notes == seq![
            "Detected PHP / "@ + f.tool->0 + "."@,
        ],
        Python.finds(facts) matches Some(f) ==> f.ecosystem == "python"@ && f.notes == seq![
            "Detected Python project; using `"@ + f.tool->0 + "`."@,
        ],
        Ruby.finds(facts) matches Some(f) ==> f.ecosystem == "ruby"@ && (f.notes == seq![
            "Detected Gemfile + Rails."@,
        ] || f.notes == seq!["Detected Gemfile."@]),
        Rust.finds(facts) matches Some(f) ==> f.ecosystem == "rust"@ && f.tool == Some("cargo"@) && (
        f.notes == seq!["Detected Cargo.toml (workspace); suggested cargo commands."@] || f.notes
            == seq!["Detected Cargo.toml; suggested cargo commands."@]),
        Tool::Uv.label() == "uv"@ && Tool::Poetry.label() == "poetry"@ && Tool::Pdm.label()
            == "pdm"@,
        Tool::Pipenv.label() == "pipenv"@ && Tool::Pip.label() == "pip"@,
        Pm::Bun.label() == "bun"@ && Pm::Deno.label() == "deno"@ && Pm::Pnpm.label() == "pnpm"@,
        Pm::Yarn.label() == "yarn"@ && Pm::Npm.label() == "npm"@,
{
}

} // verus!
