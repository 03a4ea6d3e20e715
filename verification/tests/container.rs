use croft::container::devcontainer::backend::{
    container_state, docker_outcome, is_privilege_escalating, status_of, ContainerState,
    DevcontainerBackend, DevcontainerError, DevcontainerIdentity, EnsureAction, EnsureEvent,
};
use croft::container::devcontainer::config::{
    candidates, ContainerSource, DevcontainerConfigError, DevcontainerSpec, RawBuild, RawSpec,
};
use croft::container::registry::{Owner, ServiceRegistry};
use croft::container::{BackendError, ExecOptions, ServiceStatus};
use croft::textmap::TextMap;
use sha2::Digest;

fn words(list: &[&str]) -> Vec<String> {
    list.iter().map(|s| s.to_string()).collect()
}

fn raw() -> RawSpec {
    RawSpec {
        name: None,
        image: None,
        build: None,
        has_compose_file: false,
        workspace_folder: None,
        run_args: vec![],
        container_env: TextMap::new(),
        remote_env: TextMap::new(),
        remote_user: None,
    }
}

fn image(name: &str) -> RawSpec {
    let mut spec = raw();
    spec.image = Some(name.to_string());
    spec
}

fn build(dockerfile: &str, context: Option<&str>) -> RawSpec {
    let mut spec = raw();
    spec.build = Some(RawBuild {
        dockerfile: Some(dockerfile.to_string()),
        context: context.map(str::to_string),
        args: TextMap::new(),
    });
    spec
}

fn spec_of(path: &str, raw: RawSpec) -> DevcontainerSpec {
    DevcontainerSpec::from_str(path, Ok(raw)).unwrap()
}

fn spec_image() -> DevcontainerSpec {
    spec_of("/proj/.devcontainer/devcontainer.json", image("alpine:latest"))
}

fn ident(slug: &str, worktree: &str) -> DevcontainerIdentity {
    DevcontainerIdentity {
        project_root: "/home/me/proj".to_string(),
        project_slug: slug.to_string(),
        worktree_slug: worktree.to_string(),
    }
}

fn backend(spec: DevcontainerSpec) -> DevcontainerBackend {
    DevcontainerBackend::new(spec, ident("keel", ""), None)
}

#[test]
fn container_name_includes_worktree_slug_when_isolated() {
    let backend = DevcontainerBackend::new(spec_image(), ident("keel", "feature-x"), None);
    assert_eq!(backend.container_name(), "keel-devcontainer-keel-feature-x");
}

#[test]
fn container_name_omits_worktree_when_empty() {
    assert_eq!(backend(spec_image()).container_name(), "keel-devcontainer-keel");
}

#[test]
fn container_name_falls_back_when_project_slug_empty() {
    let backend = DevcontainerBackend::new(spec_image(), ident("", ""), None);
    assert_eq!(backend.container_name(), "keel-devcontainer-project");
}

#[test]
fn workspace_folder_uses_spec_value_when_present() {
    let mut raw = image("alpine");
    raw.workspace_folder = Some("/code".to_string());
    let backend = backend(spec_of("/proj/devcontainer.json", raw));
    assert_eq!(backend.workspace_folder(), "/code");
}

#[test]
fn workspace_folder_defaults_to_workspaces_basename() {
    assert_eq!(backend(spec_image()).workspace_folder(), "/workspaces/proj");
}

#[test]
fn image_ref_passes_through_image_field() {
    assert_eq!(backend(spec_image()).image_ref(), "alpine:latest");
}

#[test]
fn image_ref_hashes_when_building() {
    let backend = backend(spec_of("/no/such/devcontainer.json", build("Dockerfile", None)));
    let image_ref = backend.image_ref();
    assert!(image_ref.starts_with("keel-devcontainer-keel:"), "got: {image_ref}");
    let tag = image_ref.split_once(':').map(|(_, t)| t).unwrap_or_default();
    assert_eq!(tag.len(), 12);
}

#[test]
fn image_tags_are_digits_of_a_sha256() {
    let spec = spec_of("/proj/devcontainer.json", build("Dockerfile", None));
    let made = DevcontainerBackend::new(spec, ident("keel", ""), Some(b"FROM alpine\n".to_vec()));
    let digest = hex::encode(sha2::Sha256::digest(b"FROM alpine\n"));
    assert_eq!(made.image_ref(), format!("keel-devcontainer-keel:{}", &digest[..12]));
}

#[test]
fn exec_argv_uses_tty_flag_when_requested() {
    let opts = ExecOptions { tty: true, env: TextMap::new(), workdir: None };
    let argv = backend(spec_image()).exec_argv(&words(&["sh", "-c", "echo hi"]), &opts);
    assert_eq!(argv[0], "docker");
    assert_eq!(argv[1], "exec");
    assert_eq!(argv[2], "-it");
    assert!(argv.contains(&"sh".to_string()));
    assert!(argv.contains(&"-c".to_string()));
}

#[test]
fn exec_argv_uses_dash_i_when_non_tty() {
    let argv = backend(spec_image()).exec_argv(&words(&["true"]), &ExecOptions::default());
    assert_eq!(argv[2], "-i");
}

#[test]
fn exec_argv_includes_remote_env_then_recipe_env() {
    let mut raw = image("alpine");
    raw.remote_env.insert("EDITOR".to_string(), "vim".to_string());
    let backend = backend(spec_of("/proj/devcontainer.json", raw));
    let mut env = TextMap::new();
    env.insert("FOO".to_string(), "bar".to_string());
    let opts = ExecOptions { tty: false, env, workdir: None };
    let argv = backend.exec_argv(&words(&["true"]), &opts);
    let env_positions: Vec<usize> =
        argv.iter().enumerate().filter(|(_, s)| *s == "-e").map(|(i, _)| i).collect();
    assert_eq!(env_positions.len(), 2);
    assert_eq!(argv[env_positions[0] + 1], "EDITOR=vim");
    assert_eq!(argv[env_positions[1] + 1], "FOO=bar");
    assert_eq!(argv.last().map(String::as_str), Some("true"));
}

#[test]
fn exec_argv_workdir_defaults_to_workspace_folder() {
    let argv = backend(spec_image()).exec_argv(&words(&["true"]), &ExecOptions::default());
    let w_idx = argv.iter().position(|s| s == "-w").expect("has -w");
    assert_eq!(argv[w_idx + 1], "/workspaces/proj");
}

#[test]
fn exec_argv_workdir_uses_opts_override() {
    let opts =
        ExecOptions { tty: false, env: TextMap::new(), workdir: Some("/elsewhere".to_string()) };
    let argv = backend(spec_image()).exec_argv(&words(&["true"]), &opts);
    let w_idx = argv.iter().position(|s| s == "-w").expect("has -w");
    assert_eq!(argv[w_idx + 1], "/elsewhere");
}

#[test]
fn exec_argv_passes_remote_user() {
    let mut raw = image("alpine");
    raw.remote_user = Some("vscode".to_string());
    let argv = backend(spec_of("/proj/devcontainer.json", raw))
        .exec_argv(&words(&["true"]), &ExecOptions::default());
    let u_idx = argv.iter().position(|s| s == "--user").expect("has --user");
    assert_eq!(argv[u_idx + 1], "vscode");
}

#[test]
fn privilege_escalating_detection() {
    assert!(is_privilege_escalating("--privileged"));
    assert!(is_privilege_escalating("--cap-add=SYS_PTRACE"));
    assert!(is_privilege_escalating("--network=host"));
    assert!(is_privilege_escalating("--net=host"));
    assert!(!is_privilege_escalating("--init"));
    assert!(!is_privilege_escalating("--cap-drop=ALL"));
}

#[test]
fn plan_reflects_build_source() {
    let plan = backend(spec_of("/proj/devcontainer.json", build("Dockerfile", None))).plan();
    assert!(plan.needs_build);
    assert_eq!(plan.container_name, "keel-devcontainer-keel");
}

#[test]
fn plan_reflects_image_source() {
    let plan = backend(spec_image()).plan();
    assert!(!plan.needs_build);
    assert_eq!(plan.image_ref, "alpine:latest");
}

#[test]
fn a_container_is_brought_up_step_by_step() {
    let made = backend(spec_image());
    assert!(matches!(
        made.ensure_next(EnsureEvent::Docker(false)),
        EnsureAction::Fail(DevcontainerError::DockerMissing)
    ));
    assert!(matches!(
        made.ensure_next(EnsureEvent::State(ContainerState::Running)),
        EnsureAction::Ready
    ));
    assert!(matches!(
        made.ensure_next(EnsureEvent::State(ContainerState::Stopped)),
        EnsureAction::Start(_)
    ));
    match made.ensure_next(EnsureEvent::State(ContainerState::Missing)) {
        EnsureAction::Run(argv) => assert_eq!(argv, made.run_argv()),
        other => panic!("unexpected: {other:?}"),
    }
    assert_eq!(container_state(Some("running\n")), ContainerState::Running);
    assert_eq!(container_state(None), ContainerState::Missing);
    assert_eq!(status_of(ContainerState::Stopped), ServiceStatus::Stopped);
    let failed = docker_outcome("run", false, Some(125), " no such image \n").unwrap_err();
    assert!(failed.message().contains("125"));
    assert!(docker_outcome("run", true, Some(0), "").is_ok());
}

fn path(name: &str) -> String {
    format!("/proj/{name}")
}

#[test]
fn parses_image_only() {
    let spec = spec_of(
        &path("devcontainer.json"),
        image("mcr.microsoft.com/devcontainers/base:ubuntu"),
    );
    assert_eq!(
        spec.source,
        ContainerSource::Image("mcr.microsoft.com/devcontainers/base:ubuntu".to_string())
    );
    assert!(spec.workspace_folder.is_none());
    assert!(spec.container_env.is_empty());
}

#[test]
fn parses_build_with_defaults() {
    let spec = spec_of(&path(".devcontainer/devcontainer.json"), build("Dockerfile", None));
    match spec.source {
        ContainerSource::Build { dockerfile, context, args } => {
            assert_eq!(dockerfile, "/proj/.devcontainer/Dockerfile");
            assert_eq!(context, "/proj/.devcontainer");
            assert!(args.is_empty());
        }
        other => panic!("expected Build, got {other:?}"),
    }
}

#[test]
fn parses_build_with_explicit_context_and_args() {
    let mut raw = build("build/Dockerfile", Some(".."));
    raw.build.as_mut().unwrap().args.insert("RUST_VERSION".to_string(), "1.88".to_string());
    let spec = spec_of(&path(".devcontainer/devcontainer.json"), raw);
    match spec.source {
        ContainerSource::Build { dockerfile, context, args } => {
            assert_eq!(dockerfile, "/proj/.devcontainer/build/Dockerfile");
            assert_eq!(context, "/proj/.devcontainer/..");
            assert_eq!(args.get("RUST_VERSION").map(String::as_str), Some("1.88"));
        }
        other => panic!("expected Build, got {other:?}"),
    }
}

#[test]
fn parses_full_spec_subset() {
    let mut raw = image("alpine:latest");
    raw.name = Some("test".to_string());
    raw.workspace_folder = Some("/workspaces/test".to_string());
    raw.run_args = words(&["--init", "--cap-add=SYS_PTRACE"]);
    raw.container_env.insert("TZ".to_string(), "UTC".to_string());
    raw.remote_env.insert("EDITOR".to_string(), "vim".to_string());
    raw.remote_user = Some("vscode".to_string());
    let spec = spec_of(&path("devcontainer.json"), raw);
    assert_eq!(spec.workspace_folder.as_deref(), Some("/workspaces/test"));
    assert_eq!(spec.run_args, vec!["--init", "--cap-add=SYS_PTRACE"]);
    assert_eq!(spec.container_env.get("TZ").map(String::as_str), Some("UTC"));
    assert_eq!(spec.remote_env.get("EDITOR").map(String::as_str), Some("vim"));
    assert_eq!(spec.remote_user.as_deref(), Some("vscode"));
    assert_eq!(backend(spec).escalating_args(), vec!["--cap-add=SYS_PTRACE"]);
}

#[test]
fn rejects_docker_compose_file() {
    let mut raw = raw();
    raw.has_compose_file = true;
    raw.workspace_folder = Some("/workspace".to_string());
    let err = DevcontainerSpec::from_str(&path("devcontainer.json"), Ok(raw))
        .expect_err("must reject");
    let msg = err.message();
    assert!(msg.contains("dockerComposeFile"), "got: {msg}");
    assert!(msg.contains("runtime.backend"), "got: {msg}");
}

#[test]
fn rejects_when_neither_image_nor_build_set() {
    let mut raw = raw();
    raw.name = Some("empty".to_string());
    let err = DevcontainerSpec::from_str(&path("devcontainer.json"), Ok(raw))
        .expect_err("must reject");
    assert!(err.message().contains("nothing to run"));
}

#[test]
fn image_wins_when_both_image_and_build_provided() {
    let mut raw = build("Dockerfile", None);
    raw.image = Some("alpine:latest".to_string());
    let spec = spec_of(&path("devcontainer.json"), raw);
    assert_eq!(spec.source, ContainerSource::Image("alpine:latest".to_string()));
}

#[test]
fn an_unreadable_spec_is_reported_with_its_reason() {
    let err = DevcontainerSpec::from_str(&path("devcontainer.json"), Err("bad".to_string()))
        .unwrap_err();
    assert!(matches!(err, DevcontainerConfigError::Parse { message, .. } if message == "bad"));
}

fn found(tried: &[String], present: &[&str]) -> Vec<bool> {
    tried.iter().map(|p| present.contains(&p.as_str())).collect()
}

#[test]
fn discover_prefers_dotdir_path() {
    let tried = candidates("/r", None);
    let files = found(&tried, &["/r/.devcontainer/devcontainer.json", "/r/.devcontainer.json"]);
    let found = DevcontainerSpec::discover("/r", None, &files).unwrap();
    assert_eq!(found, "/r/.devcontainer/devcontainer.json");
}

#[test]
fn discover_falls_back_to_dotfile() {
    let tried = candidates("/r", None);
    let files = found(&tried, &["/r/.devcontainer.json"]);
    let found = DevcontainerSpec::discover("/r", None, &files).unwrap();
    assert_eq!(found, "/r/.devcontainer.json");
}

#[test]
fn discover_honours_override() {
    let tried = candidates("/r", Some("custom/dev.json"));
    let files = found(&tried, &["/r/custom/dev.json"]);
    let found = DevcontainerSpec::discover("/r", Some("custom/dev.json"), &files).unwrap();
    assert_eq!(found, "/r/custom/dev.json");
}

#[test]
fn discover_missing_override_errors_with_path() {
    let tried = candidates("/r", Some("nope.json"));
    let files = found(&tried, &[]);
    let err = DevcontainerSpec::discover("/r", Some("nope.json"), &files).expect_err("must fail");
    assert!(matches!(err, DevcontainerConfigError::NotFound(_)));
}

#[test]
fn discover_no_config_errors_with_paths_tried() {
    let tried = candidates("/r", None);
    let files = found(&tried, &[]);
    let err = DevcontainerSpec::discover("/r", None, &files).expect_err("must fail");
    let msg = err.message();
    assert!(msg.contains(".devcontainer/devcontainer.json"));
    assert!(msg.contains(".devcontainer.json"));
}

fn registry(container: bool, custom: &[&str]) -> ServiceRegistry {
    let names = if custom.is_empty() { None } else { Some(words(custom)) };
    ServiceRegistry::new(container, names)
}

#[test]
fn list_services_unions_both_owners() {
    let registry = registry(true, &["ngrok", "postgres"]);
    let mut listed =
        registry.list_services(words(&["app", "worker"]), words(&["ngrok", "postgres"]));
    listed.sort();
    assert_eq!(listed, vec!["app", "ngrok", "postgres", "worker"]);
}

#[test]
fn status_routes_custom_to_custom_backend() {
    assert_eq!(registry(true, &["ngrok"]).route("ngrok"), Some(Owner::Custom));
}

#[test]
fn status_routes_compose_to_container_backend() {
    assert_eq!(registry(true, &["ngrok"]).route("app"), Some(Owner::Container));
}

#[test]
fn targeted_action_for_compose_only_routes_to_container() {
    let plan = registry(true, &["ngrok"]).dispatch_targeted("up", &words(&["app"])).unwrap();
    assert_eq!(plan.owner, Owner::Container);
    assert_eq!(plan.services, vec!["app"]);
}

#[test]
fn targeted_action_mixed_owners_errors_with_hint() {
    let err =
        registry(true, &["ngrok"]).dispatch_targeted("up", &words(&["app", "ngrok"])).unwrap_err();
    match err {
        BackendError::Reported(msg) => assert!(msg.contains("mixed-backend"), "msg: {msg}"),
        other => panic!("unexpected: {other:?}"),
    }
}

#[test]
fn project_wide_action_with_only_custom_uses_custom() {
    let plan = registry(false, &["ngrok"]).dispatch_all().unwrap();
    assert_eq!(plan.owner, Owner::Custom);
}

#[test]
fn passthrough_requires_container_backend() {
    let err = registry(false, &["ngrok"]).require_container().unwrap_err();
    match err {
        BackendError::Reported(msg) => {
            assert!(msg.contains("no container backend"), "msg: {msg}");
        }
        other => panic!("unexpected: {other:?}"),
    }
}

#[test]
fn empty_registry_returns_missing_for_unknown_service() {
    assert_eq!(registry(true, &[]).route("anything"), Some(Owner::Container));
    assert_eq!(registry(false, &[]).route("anything"), None);
}
