use croft::init::detector::{CommandFragment, Detector, Facts, Finding, Fragment, RunSpec};
use croft::init::detectors::{
    detect_all, registry, signals, Compose, Devcontainer, DotEnv, Go, Node, Php, Python, Ruby, Rust,
};
use croft::init::plan::{plan, target_path, InitPlan};
use croft::init::render::render;
use croft::init::template::Template;

fn holding(files: &[&str]) -> Facts {
    Facts { present: files.iter().map(|f| f.to_string()).collect(), cargo_toml: None }
}

fn with_cargo(body: &str, files: &[&str]) -> Facts {
    let mut facts = holding(files);
    facts.present.push("Cargo.toml".to_string());
    facts.cargo_toml = Some(body.to_string());
    facts
}

fn has_command(finding: &Finding, names: &[&str]) -> bool {
    finding
        .fragments
        .iter()
        .any(|f| matches!(f, Fragment::Command(c) if names.contains(&c.name.as_str())))
}

fn parses_back(body: &str) -> toml::Table {
    toml::from_str::<toml::Table>(body).expect("valid TOML")
}

fn planned(template: Option<Template>, facts: &Facts) -> InitPlan {
    plan("/work/scratch", false, template, facts).unwrap()
}

#[test]
fn detects_docker_compose_yml() {
    let f = Compose.detect(&holding(&["docker-compose.yml"])).unwrap();
    assert_eq!(f.ecosystem, "compose");
    assert!(matches!(f.fragments[0], Fragment::Runtime { backend: "compose", .. }));
}

#[test]
fn detects_compose_yaml_variants() {
    for name in ["docker-compose.yaml", "compose.yml", "compose.yaml"] {
        assert!(Compose.detect(&holding(&[name])).is_some(), "{name} should match");
    }
}

#[test]
fn none_when_no_compose_file() {
    assert!(Compose.detect(&holding(&[])).is_none());
}

#[test]
fn detects_devcontainer_json_under_dir() {
    let f = Devcontainer.detect(&holding(&[".devcontainer/devcontainer.json"])).unwrap();
    assert_eq!(f.ecosystem, "devcontainer");
    assert!(matches!(f.fragments[0], Fragment::Devcontainer { .. }));
}

#[test]
fn detects_root_level_devcontainer_json() {
    assert!(Devcontainer.detect(&holding(&[".devcontainer.json"])).is_some());
}

#[test]
fn devcontainer_none_when_absent() {
    assert!(Devcontainer.detect(&holding(&[])).is_none());
}

#[test]
fn detects_dotenv() {
    let f = DotEnv.detect(&holding(&[".env"])).unwrap();
    assert_eq!(f.fragments.len(), 1);
    assert!(matches!(&f.fragments[0], Fragment::EnvFile(s) if s == ".env"));
}

#[test]
fn detects_dotenv_and_dotenv_local() {
    let f = DotEnv.detect(&holding(&[".env", ".env.local"])).unwrap();
    assert_eq!(f.fragments.len(), 2);
}

#[test]
fn ignores_env_example() {
    assert!(DotEnv.detect(&holding(&[".env.example"])).is_none());
}

#[test]
fn detects_go_mod() {
    let f = Go.detect(&holding(&["go.mod"])).unwrap();
    assert_eq!(f.ecosystem, "go");
    assert!(has_command(&f, &["test"]));
}

#[test]
fn go_none_when_absent() {
    assert!(Go.detect(&holding(&[])).is_none());
}

#[test]
fn bun_lock_wins_over_everything() {
    let facts = holding(&[
        "package.json",
        "package-lock.json",
        "pnpm-lock.yaml",
        "yarn.lock",
        "bun.lock",
    ]);
    let f = Node.detect(&facts).unwrap();
    assert_eq!(f.tool.as_deref(), Some("bun"));
}

#[test]
fn deno_detected_without_package_json() {
    let f = Node.detect(&holding(&["deno.json"])).unwrap();
    assert_eq!(f.tool.as_deref(), Some("deno"));
}

#[test]
fn pnpm_over_yarn_over_npm() {
    let f = Node.detect(&holding(&["package.json", "pnpm-lock.yaml", "yarn.lock"])).unwrap();
    assert_eq!(f.tool.as_deref(), Some("pnpm"));
}

#[test]
fn yarn_over_npm() {
    let f = Node.detect(&holding(&["package.json", "yarn.lock"])).unwrap();
    assert_eq!(f.tool.as_deref(), Some("yarn"));
}

#[test]
fn falls_back_to_npm_with_just_package_json() {
    let f = Node.detect(&holding(&["package.json"])).unwrap();
    assert_eq!(f.tool.as_deref(), Some("npm"));
}

#[test]
fn none_when_no_node_signals() {
    assert!(Node.detect(&holding(&[])).is_none());
}

#[test]
fn deno_uses_task_verb() {
    let f = Node.detect(&holding(&["deno.json"])).unwrap();
    let dev = f
        .fragments
        .iter()
        .find_map(|fr| match fr {
            Fragment::Command(c) if c.name == "dev" => Some(c),
            _ => None,
        })
        .unwrap();
    match &dev.run {
        RunSpec::Single(s) => assert!(s.starts_with("deno task")),
        _ => panic!("expected single run"),
    }
}

#[test]
fn detects_vanilla_composer() {
    let f = Php.detect(&holding(&["composer.json"])).unwrap();
    assert_eq!(f.tool.as_deref(), Some("composer"));
}

#[test]
fn detects_laravel() {
    let f = Php.detect(&holding(&["composer.json", "artisan"])).unwrap();
    assert_eq!(f.tool.as_deref(), Some("laravel"));
    assert!(has_command(&f, &["artisan"]));
}

#[test]
fn detects_symfony() {
    let f = Php.detect(&holding(&["composer.json", "symfony.lock"])).unwrap();
    assert_eq!(f.tool.as_deref(), Some("symfony"));
}

#[test]
fn none_without_php_signals() {
    assert!(Php.detect(&holding(&[])).is_none());
}

#[test]
fn uv_lock_wins() {
    let f = Python.detect(&holding(&["pyproject.toml", "uv.lock", "poetry.lock"])).unwrap();
    assert_eq!(f.tool.as_deref(), Some("uv"));
}

#[test]
fn poetry_over_pdm_over_pipenv_over_pip() {
    let facts = holding(&["poetry.lock", "pdm.lock", "Pipfile.lock", "requirements.txt"]);
    assert_eq!(Python.detect(&facts).unwrap().tool.as_deref(), Some("poetry"));
}

#[test]
fn bare_pyproject_defaults_to_uv() {
    let facts = holding(&["pyproject.toml"]);
    assert_eq!(Python.detect(&facts).unwrap().tool.as_deref(), Some("uv"));
}

#[test]
fn requirements_only_uses_pip() {
    let facts = holding(&["requirements.txt"]);
    assert_eq!(Python.detect(&facts).unwrap().tool.as_deref(), Some("pip"));
}

#[test]
fn none_when_no_python_signals() {
    assert!(Python.detect(&holding(&[])).is_none());
}

#[test]
fn detects_bundler() {
    let f = Ruby.detect(&holding(&["Gemfile"])).unwrap();
    assert_eq!(f.tool.as_deref(), Some("bundler"));
}

#[test]
fn detects_rails_via_application_rb() {
    let f = Ruby.detect(&holding(&["Gemfile", "config/application.rb"])).unwrap();
    assert_eq!(f.tool.as_deref(), Some("rails"));
    assert!(has_command(&f, &["console", "migrate"]));
}

#[test]
fn detects_rails_via_bin_rails() {
    let f = Ruby.detect(&holding(&["Gemfile", "bin/rails"])).unwrap();
    assert_eq!(f.tool.as_deref(), Some("rails"));
}

#[test]
fn none_without_gemfile() {
    assert!(Ruby.detect(&holding(&[])).is_none());
}

fn flags_workspace(finding: &Finding) -> bool {
    finding.fragments.iter().any(|frag| match frag {
        Fragment::Command(c) => match &c.run {
            RunSpec::Single(s) => s.contains("--workspace"),
            RunSpec::Steps(_) => false,
        },
        _ => false,
    })
}

#[test]
fn detects_single_crate() {
    let f = Rust.detect(&with_cargo("[package]\nname = \"x\"\n", &[])).unwrap();
    assert_eq!(f.fragments.iter().filter(|f| matches!(f, Fragment::Command(_))).count(), 4);
    assert!(!flags_workspace(&f));
}

#[test]
fn detects_workspace() {
    let f = Rust.detect(&with_cargo("[workspace]\nmembers = [\"a\"]\n", &[])).unwrap();
    assert!(flags_workspace(&f));
}

#[test]
fn rust_none_when_absent() {
    assert!(Rust.detect(&holding(&[])).is_none());
}

#[test]
fn every_detector_is_asked_in_turn() {
    let facts = with_cargo("[package]\n", &["compose.yaml", "go.mod", ".env"]);
    let found: Vec<&str> = detect_all(&facts).iter().map(|f| f.ecosystem).collect();
    let asked: Vec<&str> =
        registry().iter().filter_map(|d| d.detect(&facts)).map(|f| f.ecosystem).collect();
    assert_eq!(found, asked);
    assert_eq!(found.len(), 4);
    assert!(signals().contains(&"go.mod"));
}

#[test]
fn writes_template_when_absent() {
    let made = planned(None, &holding(&[]));
    assert_eq!(made.target, "/work/scratch/ampelos.toml");
    assert_eq!(target_path("/work/scratch"), made.target);
    assert!(made.body.contains("[project]"));
    assert!(made.body.contains("name = \"scratch\""));
}

#[test]
fn refuses_to_overwrite() {
    let err = plan("/work/scratch", true, None, &holding(&[])).unwrap_err();
    assert!(err.contains("already exists"));
}

#[test]
fn detects_compose_and_dotenv() {
    let body = planned(None, &holding(&["docker-compose.yml", ".env"])).body;
    assert!(body.contains("backend = \"compose\""));
    assert!(body.contains("[env_files]"));
}

#[test]
fn defaults_to_backend_none() {
    let body = planned(None, &holding(&[])).body;
    assert!(body.contains("backend = \"none\""));
}

#[test]
fn mixed_repo_compose_owns_runtime_languages_only_emit_commands() {
    let facts = with_cargo("[package]\nname = \"x\"\n", &["docker-compose.yml", ".env"]);
    let body = planned(None, &facts).body;
    assert!(body.contains("backend = \"compose\""));
    assert!(body.contains("[env_files]"));
    assert!(body.contains("# [command.build]"));
    assert!(!body.lines().any(|l| l.trim_start().starts_with("[command.")));
    parses_back(&body);
}

#[test]
fn duplicate_command_name_across_ecosystems_emits_both_with_header() {
    let body = planned(None, &holding(&["package.json", "composer.json"])).body;
    assert!(body.contains("Multiple ecosystems suggest `test`"));
    assert_eq!(body.matches("# [command.test]").count(), 2);
    parses_back(&body);
}

#[test]
fn template_laravel_writes_richer_config() {
    let body = planned(Some(Template::Laravel), &holding(&[])).body;
    assert!(body.contains("[command.artisan]"));
    assert!(body.contains("[command.test.profile.ci]"));
    parses_back(&body);
}

#[test]
fn template_node_uses_backend_none() {
    let body = planned(Some(Template::Node), &holding(&[])).body;
    assert!(body.contains("backend = \"none\""));
    parses_back(&body);
}

#[test]
fn template_rust_parses_back() {
    parses_back(&planned(Some(Template::Rust), &holding(&[])).body);
}

#[test]
fn template_rails_parses_back() {
    parses_back(&planned(Some(Template::Rails), &holding(&[])).body);
}

fn finding(eco: &'static str, frags: Vec<Fragment>) -> Finding {
    Finding { ecosystem: eco, tool: None, fragments: frags, notes: Vec::new() }
}

fn runtime(backend: &'static str, default_service: Option<&str>) -> Fragment {
    Fragment::Runtime {
        backend,
        default_service: default_service.map(str::to_string),
        compose_passthrough: true,
        service_passthrough: true,
    }
}

#[test]
fn renders_default_runtime_none_when_no_runtime_fragment() {
    let body = render("p", &vec![]);
    assert!(body.contains("backend = \"none\""));
}

#[test]
fn first_runtime_fragment_wins() {
    let f1 = finding("compose", vec![runtime("compose", None)]);
    let f2 = finding("other", vec![runtime("podman", None)]);
    let body = render("p", &vec![f1, f2]);
    assert!(body.contains("backend = \"compose\""));
    assert!(!body.contains("backend = \"podman\""));
}

#[test]
fn env_files_dedupes() {
    let f = finding(
        "x",
        vec![
            Fragment::EnvFile(".env".to_string()),
            Fragment::EnvFile(".env".to_string()),
            Fragment::EnvFile(".env.local".to_string()),
        ],
    );
    let body = render("p", &vec![f]);
    let count = body.matches("\".env\"").count();
    assert_eq!(count, 1, "got: {body}");
    assert!(body.contains("\".env.local\""));
}

#[test]
fn duplicate_command_name_emits_header_and_both() {
    let f = finding(
        "a",
        vec![
            Fragment::Command(CommandFragment::shell("test", "A", "a-test")),
            Fragment::Command(CommandFragment::shell("test", "B", "b-test")),
        ],
    );
    let body = render("p", &vec![f]);
    assert!(body.contains("Multiple ecosystems suggest `test`"));
    assert_eq!(body.matches("# [command.test]").count(), 2);
}

#[test]
fn renders_devcontainer_section() {
    let f = finding(
        "devcontainer",
        vec![Fragment::Devcontainer { path: ".devcontainer/devcontainer.json".to_string() }],
    );
    let body = render("p", &vec![f]);
    assert!(body.contains("[devcontainer]"));
    assert!(body.contains("enabled = true"));
    assert!(body.contains(".devcontainer/devcontainer.json"));
}

#[test]
fn output_parses_back_via_config() {
    let f1 = finding("compose", vec![runtime("compose", Some("app"))]);
    let f2 = finding(
        "rust",
        vec![Fragment::Command(
            CommandFragment::shell("test", "Run tests", "cargo test --workspace")
                .with_forward_args(),
        )],
    );
    let f3 = finding("dotenv", vec![Fragment::EnvFile(".env".to_string())]);
    let body = render("scratch", &vec![f1, f2, f3]);
    let table = parses_back(&body);
    assert_eq!(table["project"]["name"].as_str(), Some("scratch"));
    assert!(!table.contains_key("command"));
}
