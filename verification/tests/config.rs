use croft::config::agents::{
    AgentsConfig, MappingOverride, MappingOverrideKind, ResolvedOverride, SourceSpec,
    DEFAULT_MANIFEST_PATH,
};
use croft::config::model::{
    Backend, Config, CustomService, Recipe, RecipeProfile, Run, SystemdScope, SystemdService,
};
use croft::durations::{format_minutes, format_seconds};
use croft::paths::{components, file_name, join_path, parent, same_path, strip_base};
use croft::shell::shell_escape;
use croft::text;
use croft::textmap::TextMap;
use std::path::Path;

#[test]
fn worktrees_defaults_when_section_absent() {
    let cfg = Config::default();
    assert_eq!(cfg.worktrees.modulus, 1000);
    assert!(cfg.worktrees.seed.is_empty());
    assert!(cfg.worktrees.isolate_compose);
    assert!(cfg.worktrees.assign.is_empty());
    assert!(cfg.worktrees.dotenv.is_none());
}

#[test]
fn resolved_seed_falls_back_to_project_name() {
    let mut cfg = Config::default();
    cfg.project.name = Some("myapp".to_string());
    assert_eq!(cfg.resolved_seed(), "myapp");
}

#[test]
fn resolved_seed_prefers_explicit_seed() {
    let mut cfg = Config::default();
    cfg.project.name = Some("myapp".to_string());
    cfg.worktrees.seed = "custom".to_string();
    assert_eq!(cfg.resolved_seed(), "custom");
}

fn recipe(run: Run) -> Recipe {
    Recipe {
        desc: None,
        run,
        service: None,
        tty: false,
        env: TextMap::new(),
        needs: vec![],
        forward_args: false,
        parallel: false,
        profile: TextMap::new(),
    }
}

fn single(run: &str) -> Recipe {
    recipe(Run::Single(run.to_string()))
}

#[test]
fn parses_array_run() {
    let run = Run::Steps(vec!["check:frontend".to_string(), "check:backend".to_string()]);
    assert_eq!(run.len(), 2);
    assert!(!run.is_empty());
    assert_eq!(Run::Single("x".to_string()).len(), 1);
    assert!(Run::Steps(vec![]).is_empty());
}

#[test]
fn with_profile_applies_overrides() {
    let mut test = single("composer test");
    test.tty = true;
    let mut env = TextMap::new();
    env.insert("XDEBUG_MODE".to_string(), "off".to_string());
    test.profile.insert(
        "ci".to_string(),
        RecipeProfile {
            run: None,
            service: None,
            tty: Some(false),
            env,
            needs: None,
            forward_args: None,
            parallel: None,
        },
    );
    let active = test.with_profile(Some("ci"));
    assert!(!active.tty);
    assert_eq!(active.env.get("XDEBUG_MODE").map(String::as_str), Some("off"));
    let untouched = test.with_profile(None);
    assert!(untouched.tty);
}

#[test]
fn with_profile_unknown_returns_original() {
    let test = single("true");
    let active = test.with_profile(Some("does-not-exist"));
    assert_eq!(*active, test);
}

#[test]
fn parses_hooks_config() {
    let mut cfg = Config::default();
    cfg.hooks.stages.insert(
        "pre-commit".to_string(),
        vec!["check:format".to_string(), "check:lint".to_string()],
    );
    cfg.hooks.stages.insert("pre-push".to_string(), vec!["test".to_string()]);
    assert_eq!(cfg.hooks.for_stage("pre-commit"), &["check:format", "check:lint"]);
    assert_eq!(cfg.hooks.for_stage("pre-push"), &["test"]);
    assert!(cfg.hooks.for_stage("post-commit").is_empty());
    assert_eq!(cfg.hooks.declared_stages(), vec!["pre-commit", "pre-push"]);
}

#[test]
fn services_default_to_empty() {
    let cfg = Config::default();
    assert!(cfg.services.custom.is_empty());
    assert!(cfg.services.systemd.is_empty());
    cfg.validate().unwrap();
}

fn custom(name: &str) -> CustomService {
    CustomService {
        name: name.to_string(),
        desc: None,
        status: "true".to_string(),
        start: "true".to_string(),
        stop: "true".to_string(),
        restart: None,
        logs: None,
    }
}

fn systemd(name: &str) -> SystemdService {
    SystemdService {
        name: name.to_string(),
        desc: None,
        unit: "postgresql.service".to_string(),
        scope: SystemdScope::default(),
    }
}

#[test]
fn parses_custom_service_minimal() {
    let mut cfg = Config::default();
    let mut svc = custom("ngrok");
    svc.status = "pgrep -x ngrok".to_string();
    svc.start = "ngrok http 8080".to_string();
    svc.stop = "pkill -x ngrok".to_string();
    cfg.services.custom.push(svc);
    assert_eq!(
        cfg.services.custom[0].restart_cmd(),
        "pkill -x ngrok && ngrok http 8080"
    );
    cfg.validate().unwrap();
}

#[test]
fn parses_custom_service_with_restart_and_logs() {
    let mut svc = custom("tunnel");
    svc.restart = Some("kill -HUP $(pgrep tunnel)".to_string());
    assert_eq!(svc.restart_cmd(), "kill -HUP $(pgrep tunnel)");
}

#[test]
fn parses_systemd_service_with_default_scope() {
    let mut cfg = Config::default();
    cfg.services.systemd.push(systemd("postgres"));
    assert_eq!(cfg.services.systemd[0].scope, SystemdScope::User);
    cfg.validate().unwrap();
}

#[test]
fn validate_rejects_duplicate_custom_names() {
    let mut cfg = Config::default();
    cfg.services.custom.push(custom("x"));
    cfg.services.custom.push(custom("x"));
    let err = cfg.validate().unwrap_err();
    assert!(err.contains("duplicate service name `x`"));
    assert!(err.contains("services.custom"));
}

#[test]
fn validate_rejects_name_collision_across_custom_and_systemd() {
    let mut cfg = Config::default();
    cfg.services.custom.push(custom("postgres"));
    cfg.services.systemd.push(systemd("postgres"));
    let err = cfg.validate().unwrap_err();
    assert!(err.contains("duplicate service name `postgres`"));
    assert!(err.contains("services.custom"));
}

#[test]
fn devcontainer_defaults_when_section_absent() {
    let cfg = Config::default();
    assert!(!cfg.devcontainer.enabled);
    assert!(cfg.devcontainer.path.is_none());
}

#[test]
fn defaults_runtime_when_section_missing() {
    let cfg = Config::default();
    assert_eq!(cfg.runtime.backend, Backend::Compose);
    assert!(cfg.runtime.compose_passthrough);
    assert!(cfg.runtime.service_passthrough);
}

#[test]
fn defaults_when_section_absent() {
    let agents = AgentsConfig::default();
    assert!(agents.install_with_setup);
    assert_eq!(agents.manifest_path, DEFAULT_MANIFEST_PATH);
    assert!(agents.sources.is_empty());
}

fn source(name: &str, repo: &str, rev: &str) -> SourceSpec {
    SourceSpec {
        name: name.to_string(),
        repo: repo.to_string(),
        rev: rev.to_string(),
        subpath: None,
        manifest_path: None,
        overrides: vec![],
    }
}

#[test]
fn parses_full_section() {
    let skip = MappingOverride {
        dest: "AGENTS.md".to_string(),
        action: Some(MappingOverrideKind::Skip),
        relocate: None,
    };
    assert_eq!(skip.resolved().unwrap(), ResolvedOverride::Skip);
    let relocate = MappingOverride {
        dest: "skills/sec.md".to_string(),
        action: None,
        relocate: Some("skills/sec.upstream.md".to_string()),
    };
    assert_eq!(
        relocate.resolved().unwrap(),
        ResolvedOverride::Relocate("skills/sec.upstream.md".to_string())
    );
}

#[test]
fn validate_rejects_duplicate_source_names() {
    let mut cfg = Config::default();
    cfg.agents.sources.push(source("x", "https://example.com/a.git", "v1"));
    cfg.agents.sources.push(source("x", "https://example.com/b.git", "v1"));
    let err = cfg.validate().unwrap_err();
    assert!(err.contains("duplicate agents source name `x`"));
}

#[test]
fn validate_rejects_empty_rev() {
    let mut cfg = Config::default();
    cfg.agents.sources.push(source("x", "https://example.com/a.git", ""));
    assert!(cfg.validate().unwrap_err().contains("`rev`"));
}

#[test]
fn override_requires_exactly_one_action() {
    let none =
        MappingOverride { dest: "X.md".to_string(), action: None, relocate: None };
    assert!(none.resolved().is_err());
    let both = MappingOverride {
        dest: "X.md".to_string(),
        action: Some(MappingOverrideKind::Skip),
        relocate: Some("Y.md".to_string()),
    };
    assert!(both.resolved().is_err());
}

#[test]
fn maps_list_their_keys_in_order() {
    let mut map: TextMap<u32> = TextMap::new();
    for (k, v) in [("b", 2), ("a", 1), ("ä", 3), ("b", 4)] {
        map.insert(k.to_string(), v);
    }
    assert_eq!(map.len(), 3);
    let keys: Vec<&str> = (0..map.len()).map(|i| map.key_at(i).as_str()).collect();
    assert_eq!(keys, vec!["a", "b", "ä"]);
    assert_eq!(map.get("b"), Some(&4));
    assert_eq!(map.remove("a"), Some(1));
    assert!(!map.contains_key("a"));
}

#[test]
fn paths_are_taken_apart_like_std_does() {
    for (base, p) in [("/a/b", "c"), ("/a/b/", "c/d"), ("/a", "/x"), ("", "c"), ("a", "")] {
        assert_eq!(Path::new(&join_path(base, p)), Path::new(base).join(p).as_path());
    }
    for p in ["/a/b/c", "/a", "/", "a", "a/b/", "./x", "", "/a//b/./c", "a/.."] {
        let std_path = Path::new(p);
        assert_eq!(parent(p).as_deref(), std_path.parent().and_then(|x| x.to_str()), "{p}");
        assert_eq!(file_name(p).as_deref(), std_path.file_name().and_then(|x| x.to_str()), "{p}");
        let parts: Vec<String> = std_path
            .components()
            .map(|c| c.as_os_str().to_str().unwrap().to_string())
            .collect();
        assert_eq!(components(p), parts, "{p}");
    }
    assert!(same_path("/a//b/", "/a/b"));
    assert_eq!(strip_base("/a/b/c", "/a").as_deref(), Some("b/c"));
    assert_eq!(strip_base("/ab/c", "/a"), None);
}

#[test]
fn texts_are_cut_like_std_does() {
    for s in ["", "a", "a\nb", "a\r\nb\r\n", "\n\n", " x\ty  z\u{a0}w ", "a,b,,c"] {
        assert_eq!(text::lines(s), s.lines().collect::<Vec<_>>());
        assert_eq!(text::split_whitespace(s), s.split_whitespace().collect::<Vec<_>>());
        assert_eq!(text::trim(s), s.trim());
        assert_eq!(text::split(s, ','), s.split(',').collect::<Vec<_>>());
        assert_eq!(text::splitn(s, 2, ','), s.splitn(2, ',').collect::<Vec<_>>());
        assert_eq!(text::find(s, "b"), s.find('b').map(|i| s[..i].chars().count()));
    }
    for s in ["0", "42", "+7", "-1", "", "+", "-", "-+1", "4294967295", "4294967296", "1_0"] {
        assert_eq!(text::parse_u32(s), s.parse::<u32>().ok(), "{s}");
        assert_eq!(text::parse_i64(s), s.parse::<i64>().ok(), "{s}");
    }
    for s in ["9223372036854775807", "9223372036854775808", "-9223372036854775808", "-9223372036854775809"] {
        assert_eq!(text::parse_i64(s), s.parse::<i64>().ok(), "{s}");
    }
    for n in [0, 9, 10, -1, i64::MIN, i64::MAX] {
        assert_eq!(text::signed_decimal(n), n.to_string());
    }
    assert_eq!(text::pad_left("7", ' ', 3), format!("{:>3}", 7));
    assert_eq!(text::pad_right("é", 3), format!("{:<3}", "é"));
    assert!(text::comes_before("Zebra", "apple"));
}

#[test]
fn escaped_text_reads_back_as_one_word() {
    for s in ["plain", "two words", "it's", "", "$HOME `x` \"q\"", "a\\b"] {
        let words = shell_words::split(&shell_escape(s)).unwrap();
        assert_eq!(words, vec![s.to_string()]);
    }
}

#[test]
fn short_durations_are_rounded_like_floats() {
    for nanos in [0u32, 49_999_999, 50_000_000, 50_000_001, 950_000_000, 999_999_999] {
        for secs in 0..60u64 {
            let f = std::time::Duration::new(secs, nanos).as_secs_f64();
            let want = if f < 10.0 { format!("{f:.1}s") } else { format!("{f:.0}s") };
            assert_eq!(format_seconds(secs, nanos), want, "{secs} {nanos}");
        }
    }
    assert_eq!(format_minutes(3, 7), "3m07s");
}
