use croft::hooks::config::{
    merge_with_upstream, HookLanguage, HookSpec, PreCommitConfig, Repo, UpstreamHook,
};
use croft::hooks::error::HookError;
use croft::hooks::git::{ancestors, discover_repo, staged_files, DiffEnd};
use croft::hooks::installer::{
    hooks_dir, install_one, is_ours, known_stages, render_shim, uninstall, AMPELOS_HOOK_MARKER,
};
use croft::hooks::runner::{
    admits, check_words, entry_argv, filter_files, find_upstream, hook_source, hook_step, hooks_for_stage,
    script_candidate, HookOutcome, HookSource, HookStep,
};

fn spec(id: &str, entry: Option<&str>) -> HookSpec {
    HookSpec {
        id: id.to_string(),
        name: None,
        language: HookLanguage::System,
        entry: entry.map(str::to_string),
        args: vec![],
        files: None,
        exclude: None,
        pass_filenames: true,
        stages: vec![],
        always_run: false,
        service: None,
    }
}

fn hook(files: Option<&str>, exclude: Option<&str>) -> HookSpec {
    let mut h = spec("t", Some("echo"));
    h.files = files.map(str::to_string);
    h.exclude = exclude.map(str::to_string);
    h
}

fn repo(name: &str, hooks: Vec<HookSpec>) -> Repo {
    Repo { repo: name.to_string(), rev: None, hooks }
}

fn words(list: &[&str]) -> Vec<String> {
    list.iter().map(|s| s.to_string()).collect()
}

#[test]
fn stage_filter_with_no_stages_uses_defaults() {
    let hook = spec("x", None);
    assert!(hook.applies_to_stage("pre-commit", &[]));
    assert!(hook.applies_to_stage("pre-commit", &["pre-commit".to_string()]));
    assert!(!hook.applies_to_stage("pre-push", &["pre-commit".to_string()]));
}

#[test]
fn stage_filter_explicit() {
    let mut hook = spec("x", None);
    hook.stages = vec!["pre-push".to_string()];
    assert!(!hook.applies_to_stage("pre-commit", &[]));
    assert!(hook.applies_to_stage("pre-push", &[]));
}

#[test]
fn parses_local_system_hook() {
    let mut rust_fmt = spec("rust-fmt", Some("cargo fmt --check"));
    rust_fmt.pass_filenames = false;
    let local = repo("local", vec![rust_fmt]);
    assert!(local.is_local());
    assert!(local.hooks[0].language.is_native());
    assert_eq!(entry_argv(&local.hooks[0]).unwrap(), vec!["cargo", "fmt", "--check"]);
}

#[test]
fn parses_external_repo_with_rev() {
    let mut far = repo("https://github.com/pre-commit/pre-commit-hooks", vec![]);
    far.rev = Some("v4.5.0".to_string());
    assert!(!far.is_local());
    assert!(!far.is_meta());
    assert!(matches!(hook_source(&far), Ok(HookSource::Cached)));
}

#[test]
fn discover_repo_walks_up() {
    let walked = ancestors("/tmp/repo/a/b");
    assert_eq!(walked, vec!["/tmp/repo/a/b", "/tmp/repo/a", "/tmp/repo", "/tmp", "/"]);
    let found = discover_repo("/tmp/repo/a/b", &vec![false, false, true, false, false]).unwrap();
    assert_eq!(found, "/tmp/repo");
}

#[test]
fn discover_repo_errors_when_not_a_repo() {
    let err = discover_repo("/tmp", &vec![false, false]).unwrap_err();
    assert!(matches!(err, HookError::NotARepo(_)));
}

#[test]
fn staged_files_are_the_printed_lines() {
    let printed = DiffEnd::Printed("a.rs\n\nb c.rs\n".to_string());
    assert_eq!(staged_files(printed).unwrap(), vec!["a.rs", "b c.rs"]);
    let failed = DiffEnd::Failed { status: "exit 128".to_string(), stderr: "bad".to_string() };
    assert!(matches!(staged_files(failed), Err(HookError::GitFailed(_))));
}

#[test]
fn install_writes_shim() {
    let dir = hooks_dir("/repo");
    let shim = install_one(&dir, "pre-commit", None).unwrap();
    assert_eq!(shim.path, "/repo/.git/hooks/pre-commit");
    assert!(shim.body.contains(AMPELOS_HOOK_MARKER));
    assert!(shim.body.contains("ampelos hooks run pre-commit"));
}

#[test]
fn install_overwrites_own_shim() {
    let dir = hooks_dir("/repo");
    let first = install_one(&dir, "pre-commit", None).unwrap();
    install_one(&dir, "pre-commit", Some(&first.body)).unwrap();
    assert!(is_ours(&render_shim("pre-push")));
}

#[test]
fn install_refuses_foreign_hook() {
    let dir = hooks_dir("/repo");
    let err =
        install_one(&dir, "pre-commit", Some("#!/bin/sh\necho hand-written\n")).unwrap_err();
    assert!(matches!(err, HookError::HookExists { .. }));
}

#[test]
fn uninstall_removes_only_our_shims() {
    let dir = hooks_dir("/repo");
    let stages = words(&["pre-commit", "pre-push", "commit-msg"]);
    let bodies = vec![
        Some(render_shim("pre-commit")),
        Some(render_shim("pre-push")),
        Some("#!/bin/sh\necho mine\n".to_string()),
    ];
    let removed = uninstall(&dir, &stages, &bodies);
    assert_eq!(removed.len(), 2);
    assert!(!removed.iter().any(|p| p.ends_with("commit-msg")));
    assert!(known_stages().contains(&"pre-commit"));
}

#[test]
fn filter_files_includes_only_matching() {
    let h = hook(Some(r"\.rs$"), None);
    let files = words(&["src/main.rs", "README.md", "src/lib.rs"]);
    let kept = filter_files(&h, &files).unwrap();
    assert_eq!(kept, vec!["src/main.rs", "src/lib.rs"]);
}

#[test]
fn filter_files_applies_exclude_after_include() {
    let h = hook(Some(r"\.rs$"), Some(r"^vendor/"));
    let files = words(&["src/lib.rs", "vendor/x.rs", "src/main.rs"]);
    let kept = filter_files(&h, &files).unwrap();
    assert_eq!(kept, vec!["src/lib.rs", "src/main.rs"]);
}

#[test]
fn invalid_regex_errors() {
    let h = hook(Some(r"["), None);
    let err = filter_files(&h, &[]).unwrap_err();
    assert!(matches!(err, HookError::InvalidRegex { .. }));
}

#[test]
fn hook_outcome_passed_for_zero_or_skip() {
    let pass = HookOutcome {
        hook_id: "x".to_string(),
        native: true,
        skipped: None,
        exit_code: Some(0),
    };
    let skip = HookOutcome {
        hook_id: "x".to_string(),
        native: false,
        skipped: Some("reason".to_string()),
        exit_code: None,
    };
    let fail = HookOutcome {
        hook_id: "x".to_string(),
        native: true,
        skipped: None,
        exit_code: Some(1),
    };
    assert!(pass.passed());
    assert!(skip.passed());
    assert!(!fail.passed());
}

fn always(id: &str, entry: &str) -> HookSpec {
    let mut h = spec(id, Some(entry));
    h.pass_filenames = false;
    h.always_run = true;
    h
}

fn config_of(repo_name: &str, hook: HookSpec) -> PreCommitConfig {
    PreCommitConfig { repos: vec![repo(repo_name, vec![hook])], default_stages: vec![] }
}

#[test]
fn meta_repo_errors_at_run_time() {
    let cfg = config_of("meta", always("identity", "true"));
    assert_eq!(hooks_for_stage(&cfg, "pre-commit"), vec![(0, 0)]);
    let err = hook_source(&cfg.repos[0]).unwrap_err();
    assert!(matches!(err, HookError::MetaRepoNotSupported));
}

#[test]
fn local_python_hook_runs_verbatim_when_entry_on_path() {
    let mut ruff = always("ruff", "true");
    ruff.language = HookLanguage::Python;
    let cfg = config_of("local", ruff);
    assert_eq!(hooks_for_stage(&cfg, "pre-commit").len(), 1);
    let hook = &cfg.repos[0].hooks[0];
    let argv = entry_argv(hook).unwrap();
    match hook_step(hook, argv, None, vec![]) {
        HookStep::Run(argv) => assert_eq!(argv, vec!["true"]),
        HookStep::Skip(_) => panic!("expected a run"),
    }
    let outcome = HookOutcome::ran("ruff", 0);
    assert_eq!(outcome.exit_code, Some(0));
    assert!(outcome.passed());
}

#[test]
fn hook_with_explicit_service_routes_through_backend() {
    let mut fmt = always("fmt", "cargo fmt --check");
    fmt.service = Some("app".to_string());
    let cfg = config_of("local", fmt);
    let hook = &cfg.repos[0].hooks[0];
    assert_eq!(hook.service.as_deref(), Some("app"));
    match hook_step(hook, entry_argv(hook).unwrap(), None, vec![]) {
        HookStep::Run(argv) => assert_eq!(argv, vec!["cargo", "fmt", "--check"]),
        HookStep::Skip(_) => panic!("expected a run"),
    }
}

#[test]
fn a_hook_without_files_is_skipped() {
    let h = spec("lint", Some("lint"));
    match hook_step(&h, words(&["lint"]), None, vec![]) {
        HookStep::Skip(outcome) => assert!(outcome.passed()),
        HookStep::Run(_) => panic!("expected a skip"),
    }
    match hook_step(&h, words(&["lint"]), None, words(&["a.rs"])) {
        HookStep::Run(argv) => assert_eq!(argv, vec!["lint", "a.rs"]),
        HookStep::Skip(_) => panic!("expected a run"),
    }
}

#[test]
fn entries_that_cannot_be_split_are_refused() {
    let err = entry_argv(&spec("q", Some("echo 'open"))).unwrap_err();
    assert!(matches!(
        err,
        HookError::EntryParse { message, .. } if message == "missing closing quote"
    ));
    assert!(matches!(entry_argv(&spec("n", None)), Err(HookError::EntryMissing { .. })));
}

fn upstream(id: &str, language: Option<HookLanguage>) -> UpstreamHook {
    UpstreamHook {
        id: id.to_string(),
        name: Some("Upstream".to_string()),
        language,
        entry: Some("check".to_string()),
        args: words(&["--fix"]),
        files: Some(r"\.py$".to_string()),
        exclude: None,
        pass_filenames: None,
        stages: vec![],
        always_run: None,
    }
}

#[test]
fn configuration_wins_over_upstream() {
    let mut user = spec("check", None);
    user.files = Some(r"\.rs$".to_string());
    let merged = merge_with_upstream(&user, &upstream("check", Some(HookLanguage::Script))).unwrap();
    assert_eq!(merged.entry.as_deref(), Some("check"));
    assert_eq!(merged.files.as_deref(), Some(r"\.rs$"));
    assert_eq!(merged.args, vec!["--fix"]);
}

#[test]
fn upstream_hooks_are_found_by_id() {
    let hooks = vec![upstream("a", None), upstream("b", None)];
    let found = find_upstream(&hooks, &spec("b", None), "url", Some("v1")).unwrap();
    assert_eq!(found.id, "b");
    let missing = find_upstream(&hooks, &spec("c", None), "url", Some("v1"));
    assert!(matches!(missing, Err(HookError::UpstreamHookMissing { .. })));
}

#[test]
fn scripts_are_looked_for_in_their_repository() {
    let mut h = spec("s", Some("bin/check"));
    h.language = HookLanguage::Script;
    let at = script_candidate(&h, Some("/clone"), "bin/check");
    assert_eq!(at.as_deref(), Some("/clone/bin/check"));
    assert_eq!(script_candidate(&h, None, "bin/check"), None);
}

#[test]
fn split_command_lines_are_checked() {
    assert_eq!(check_words("t", Ok(words(&["a", "b"]))).unwrap(), words(&["a", "b"]));
    assert!(matches!(check_words("t", Ok(vec![])), Err(HookError::EntryMissing { .. })));
    assert!(matches!(
        check_words("t", Err("open quote".to_string())),
        Err(HookError::EntryParse { message, .. }) if message == "open quote"
    ));
}

#[test]
fn a_file_must_be_included_and_not_excluded() {
    assert!(admits(None, None));
    assert!(admits(Some(true), Some(false)));
    assert!(!admits(Some(false), None));
    assert!(!admits(Some(true), Some(true)));
}
