use croft::agents::error::AgentsError;
use croft::agents::manifest::{
    parse_manifest, DirMapping, FileMapping, FileMode, UpstreamManifest,
};
use croft::agents::merge::{expand_source, source_root, DirScan};
use croft::agents::report::{
    diff_lines, file_status, report_lines, short_sha, source_filter, source_rows, step_lines,
    ApplyReport, Collision,
};
use croft::agents::state::{AgentsState, AppliedFile, SourceRecord, SCHEMA_VERSION};
use croft::cache::git::{
    cache_key, cache_root, clone_args, clone_next, entry_paths, meta_for, plan_entry, resolved_sha,
    CacheError, CacheKind, CachePlan, CloneNext, CloneStage, EntryFacts, GitEnd, RepoRef,
};
use croft::config::agents::{MappingOverride, MappingOverrideKind, SourceSpec};

fn file(src: &str, dest: &str) -> FileMapping {
    FileMapping { src: src.to_string(), dest: dest.to_string(), mode: FileMode::Replace }
}

fn dir(src: &str, dest: &str, glob: Option<&str>) -> DirMapping {
    DirMapping {
        src: src.to_string(),
        dest: dest.to_string(),
        glob: glob.map(str::to_string),
        mode: FileMode::Replace,
    }
}

fn manifest(files: Vec<FileMapping>, dirs: Vec<DirMapping>) -> UpstreamManifest {
    UpstreamManifest { files, dirs }
}

fn dummy_source(name: &str, overrides: Vec<MappingOverride>) -> SourceSpec {
    SourceSpec {
        name: name.to_string(),
        repo: "x".to_string(),
        rev: "v1".to_string(),
        subpath: None,
        manifest_path: None,
        overrides,
    }
}

#[test]
fn parses_minimal_manifest() {
    let read = manifest(
        vec![file("agents/GUIDE.md", "GUIDE.md")],
        vec![dir("skills/", ".tools/skills/", None)],
    );
    let m = parse_manifest("keel-agents.toml", Ok(read)).unwrap();
    assert_eq!(m.files.len(), 1);
    assert_eq!(m.dirs.len(), 1);
    assert_eq!(m.files[0].mode, FileMode::Replace);
    assert_eq!(FileMode::default(), FileMode::Replace);
}

#[test]
fn parses_once_mode() {
    let mut once = file("AGENTS.md", "AGENTS.md");
    once.mode = FileMode::Once;
    let m = parse_manifest("x", Ok(manifest(vec![once], vec![]))).unwrap();
    assert_eq!(m.files[0].mode, FileMode::Once);
}

#[test]
fn rejects_absolute_paths() {
    let err = parse_manifest("x", Ok(manifest(vec![file("/etc/passwd", "x")], vec![]))).unwrap_err();
    assert!(matches!(err, AgentsError::ManifestInvalid { .. }));
}

#[test]
fn rejects_parent_segments() {
    let err = parse_manifest("x", Ok(manifest(vec![file("a", "../escape")], vec![]))).unwrap_err();
    assert!(matches!(err, AgentsError::ManifestInvalid { .. }));
}

#[test]
fn no_path_of_a_mapping_leads_outside() {
    for bad in ["../x", "a/../../x", "a/..", "/x", ""] {
        for read in [
            manifest(vec![file(bad, "x")], vec![]),
            manifest(vec![file("x", bad)], vec![]),
            manifest(vec![], vec![dir(bad, "x", None)]),
            manifest(vec![file("a", "a")], vec![dir("b", "b", None), dir("x", bad, None)]),
        ] {
            let err = parse_manifest("x", Ok(read)).unwrap_err();
            assert!(matches!(err, AgentsError::ManifestInvalid { .. }));
        }
    }
}

#[test]
fn rejects_invalid_glob() {
    let bad = manifest(vec![], vec![dir("a", "b", Some("[unclosed"))]);
    let err = parse_manifest("x", Ok(bad)).unwrap_err();
    assert!(matches!(err, AgentsError::ManifestInvalid { .. }));
}

#[test]
fn an_unreadable_manifest_is_reported_with_its_reason() {
    let err = parse_manifest("m.toml", Err("expected a table".to_string())).unwrap_err();
    assert!(matches!(&err, AgentsError::ManifestParse { path, .. } if path == "m.toml"));
    assert!(err.message().contains("expected a table"));
}

#[test]
fn expands_file_mappings_as_is() {
    let m = manifest(vec![file("GUIDE.md", "GUIDE.md")], vec![]);
    let source = dummy_source("baseline", vec![]);
    let entries = expand_source(&source, "/clone", &m, &vec![]).unwrap();
    assert_eq!(entries.len(), 1);
    assert_eq!(entries[0].dest, "GUIDE.md");
}

fn skip(dest: &str) -> MappingOverride {
    MappingOverride {
        dest: dest.to_string(),
        action: Some(MappingOverrideKind::Skip),
        relocate: None,
    }
}

fn relocate(dest: &str, to: &str) -> MappingOverride {
    MappingOverride { dest: dest.to_string(), action: None, relocate: Some(to.to_string()) }
}

#[test]
fn skip_override_drops_mapping() {
    let m = manifest(vec![file("AGENTS.md", "AGENTS.md")], vec![]);
    let source = dummy_source("baseline", vec![skip("AGENTS.md")]);
    let entries = expand_source(&source, "/clone", &m, &vec![]).unwrap();
    assert!(entries.is_empty());
}

#[test]
fn relocate_override_rewrites_dest() {
    let m = manifest(vec![file("a", "b")], vec![]);
    let source = dummy_source("x", vec![relocate("b", "c")]);
    let entries = expand_source(&source, "/clone", &m, &vec![]).unwrap();
    assert_eq!(entries[0].dest, "c");
}

#[test]
fn the_last_override_of_a_destination_decides() {
    let m = manifest(vec![file("a", "b"), file("k", "kept")], vec![]);
    let source = dummy_source("x", vec![skip("b"), relocate("b", "c")]);
    let entries = expand_source(&source, "/clone", &m, &vec![]).unwrap();
    let dests: Vec<&str> = entries.iter().map(|e| e.dest.as_str()).collect();
    assert_eq!(dests, vec!["c", "kept"]);
}

#[test]
fn an_override_without_an_action_is_refused() {
    let m = manifest(vec![file("a", "b")], vec![]);
    let none = MappingOverride { dest: "b".to_string(), action: None, relocate: None };
    let err = expand_source(&dummy_source("x", vec![none]), "/clone", &m, &vec![]).unwrap_err();
    assert!(matches!(err, AgentsError::Config(_)));
}

#[test]
fn dir_mapping_expands_each_file() {
    let m = manifest(vec![], vec![dir("skills", ".tools/skills", Some("**/*.md"))]);
    let scan = DirScan {
        exists: true,
        files: vec![
            "a.md".to_string(),
            "b.md".to_string(),
            "ignore.txt".to_string(),
            "nested/c.md".to_string(),
        ],
    };
    let source = dummy_source("baseline", vec![]);
    let mut entries = expand_source(&source, "/clone", &m, &vec![scan]).unwrap();
    entries.sort_by(|a, b| a.dest.cmp(&b.dest));
    let dests: Vec<&str> = entries.iter().map(|e| e.dest.as_str()).collect();
    assert_eq!(
        dests,
        vec![
            ".tools/skills/a.md",
            ".tools/skills/b.md",
            ".tools/skills/nested/c.md",
        ]
    );
}

#[test]
fn subpath_is_applied_before_resolution() {
    let m = manifest(vec![file("GUIDE.md", "GUIDE.md")], vec![]);
    let mut source = dummy_source("baseline", vec![]);
    source.subpath = Some("sub".to_string());
    let entries = expand_source(&source, "/clone", &m, &vec![]).unwrap();
    assert_eq!(entries[0].src_abs, "/clone/sub/GUIDE.md");
    assert_eq!(source_root(&source, "/clone"), "/clone/sub");
}

#[test]
fn missing_dir_src_is_a_manifest_error() {
    let m = manifest(vec![], vec![dir("nope", "out", None)]);
    let scan = DirScan { exists: false, files: vec![] };
    let source = dummy_source("baseline", vec![]);
    let err = expand_source(&source, "/clone", &m, &vec![scan]).unwrap_err();
    assert!(matches!(err, AgentsError::ManifestInvalid { .. }));
}

fn applied(dest: &str) -> AppliedFile {
    AppliedFile {
        dest: dest.to_string(),
        source_name: "baseline".to_string(),
        src: "agents/GUIDE.md".to_string(),
        sha256: Some("abc".to_string()),
        mode: FileMode::Replace,
        written_at_ms: 1,
    }
}

fn sample_state() -> AgentsState {
    AgentsState {
        version: SCHEMA_VERSION,
        applied_at_ms: 1,
        sources: vec![SourceRecord {
            name: "baseline".to_string(),
            repo: "https://example/x.git".to_string(),
            rev_request: "v1".to_string(),
            resolved_sha: "deadbeef".to_string(),
            manifest_sha256: "cafe".to_string(),
        }],
        files: vec![applied("GUIDE.md")],
    }
}

#[test]
fn save_load_roundtrip() {
    let loaded = AgentsState::load("/p", Some(Ok(sample_state()))).unwrap().unwrap();
    assert_eq!(loaded, sample_state());
    assert!(loaded.find("GUIDE.md").is_some());
    assert!(loaded.find("other").is_none());
}

#[test]
fn load_returns_none_when_absent() {
    assert!(AgentsState::load("/p", None).unwrap().is_none());
}

#[test]
fn version_mismatch_is_an_error() {
    let mut state = sample_state();
    state.version = 999;
    let err = AgentsState::load("/p", Some(Ok(state))).unwrap_err();
    assert!(err.message().contains("version 999"));
}

#[test]
fn a_fresh_state_has_the_current_version() {
    let state = AgentsState::fresh();
    assert_eq!(state.version, SCHEMA_VERSION);
    assert!(state.files.is_empty());
    assert!(state.applied_at_ms > 0);
}

fn report() -> ApplyReport {
    ApplyReport {
        dry_run: false,
        written: vec!["A.md".to_string()],
        updated: vec![],
        removed: vec![],
        once_kept: vec!["K.md".to_string()],
        collisions: vec![Collision {
            dest: "D.md".to_string(),
            overshadowed_sources: vec!["one".to_string(), "two".to_string()],
            winning_source: "three".to_string(),
        }],
        drift_warnings: vec!["W.md".to_string()],
    }
}

fn empty_report() -> ApplyReport {
    ApplyReport {
        dry_run: false,
        written: vec![],
        updated: vec![],
        removed: vec![],
        once_kept: vec![],
        collisions: vec![],
        drift_warnings: vec![],
    }
}

#[test]
fn reports_name_every_file() {
    let mut r = report();
    assert_eq!(
        report_lines("install", &r),
        vec![
            "agents install: wrote   A.md",
            "agents install: kept    K.md (mode = once)",
            "agents install: warn    D.md declared by [one, two -> three], later wins",
            "agents install: warn    W.md drifted; left alone (use --force-overwrite-drift to overwrite)",
        ]
    );
    r.dry_run = true;
    assert_eq!(report_lines("update", &r)[0], "agents update: would wrote   A.md");
    assert_eq!(report_lines("update", &empty_report()), vec!["agents update: nothing to do"]);
    assert_eq!(
        diff_lines(&r),
        vec![
            "would write   A.md",
            "would skip    W.md (drifted; use --force-overwrite-drift to overwrite)",
        ]
    );
    assert_eq!(
        step_lines(&report()),
        vec![
            "  wrote   A.md",
            "  kept    K.md (mode = once)",
            "  warn    D.md declared by [one, two], using `three`",
            "  warn    W.md drifted; left alone",
        ]
    );
    assert_eq!(step_lines(&empty_report()), vec!["  agent files unchanged"]);
}

#[test]
fn no_named_source_means_all_of_them() {
    assert_eq!(source_filter(vec![]), None);
    assert_eq!(source_filter(vec!["x".to_string()]), Some(vec!["x".to_string()]));
}

#[test]
fn hashes_are_shown_by_twelve_digits() {
    assert_eq!(short_sha("0123456789abcdef"), "0123456789ab");
    assert_eq!(short_sha("abc"), "abc");
    let rows = source_rows(&vec![dummy_source("baseline", vec![])], &sample_state());
    assert_eq!(rows.len(), 1);
    assert!(rows[0].contains(&"deadbeef".to_string()));
}

#[test]
fn a_strict_status_fails_on_missing_files() {
    let files = vec![applied("A.md"), applied("B.md")];
    let fine = file_status(&files, &vec![true, true], &vec![], true);
    assert_eq!(fine.exit_code, 0);
    let loose = file_status(&files, &vec![true, false], &vec![], false);
    assert_eq!(loose.exit_code, 0);
    let strict = file_status(&files, &vec![true, false], &vec![], true);
    assert_eq!(strict.exit_code, 1);
    assert_eq!(strict.rows.len(), 2);
}

fn repo(rev: &str) -> RepoRef {
    RepoRef { repo: "https://example.com/foo".to_string(), rev: rev.to_string() }
}

fn cached() -> EntryFacts {
    EntryFacts {
        entry_exists: true,
        clone_is_dir: true,
        meta_is_file: true,
        meta: Some(meta_for(&repo("v0.1.0"), "0123456789012345678901234567890123456789")),
    }
}

fn absent() -> EntryFacts {
    EntryFacts { entry_exists: false, clone_is_dir: false, meta_is_file: false, meta: None }
}

#[test]
fn clone_then_reuse_returns_cached_entry() {
    let paths = entry_paths("/p", &repo("v0.1.0"), CacheKind::Hooks).unwrap();
    let first = plan_entry(false, absent(), &repo("v0.1.0"), &paths.clone_dir);
    assert!(first.reuse.is_none());
    let second: CachePlan = plan_entry(false, cached(), &repo("v0.1.0"), &paths.clone_dir);
    let found = second.reuse.unwrap();
    assert_eq!(found.clone_dir, paths.clone_dir);
    assert_eq!(found.resolved_sha.len(), 40);
}

#[test]
fn force_reclones_existing_entry() {
    let paths = entry_paths("/p", &repo("v0.1.0"), CacheKind::Hooks).unwrap();
    let forced = plan_entry(true, cached(), &repo("v0.1.0"), &paths.clone_dir);
    assert!(forced.wipe, "force should have wiped the cache entry");
    assert!(forced.reuse.is_none());
}

#[test]
fn missing_rev_is_an_error() {
    let err = entry_paths("/p", &repo(""), CacheKind::Hooks).unwrap_err();
    assert!(matches!(err, CacheError::MissingRev { .. }));
}

#[test]
fn agents_kind_isolates_from_hooks_kind() {
    let hooks = entry_paths("/p", &repo("v0.1.0"), CacheKind::Hooks).unwrap();
    let agents = entry_paths("/p", &repo("v0.1.0"), CacheKind::Agents).unwrap();
    assert_ne!(hooks.clone_dir, agents.clone_dir);
    assert!(agents.clone_dir.contains("/cache/agents/"));
    assert!(agents.clone_dir.starts_with(&cache_root("/p", CacheKind::Agents)));
}

#[test]
fn cache_key_is_deterministic_and_path_safe() {
    let a = cache_key("https://github.com/foo/bar", "v1.0");
    let b = cache_key("https://github.com/foo/bar", "v1.0");
    assert_eq!(a, b);
    assert!(!a.contains('/'));
    assert!(!a.contains(':'));
    assert!(!a.contains(' '));
    assert_eq!(a, "https_github.com_foo_bar-v1.0");
}

#[test]
fn cache_key_caps_length() {
    let big = "x".repeat(500);
    let key = cache_key(&big, "v1");
    assert!(key.len() <= 200);
}

#[test]
fn cache_keys_tell_the_parts_apart() {
    assert_eq!(cache_key("a-b", "c"), "a-b-c");
    assert_eq!(cache_key("a", "b-c"), "a__b-c");
    assert_ne!(cache_key("a-b", "c"), cache_key("a", "b-c"));
    assert_ne!(cache_key("a", "b-c-d"), cache_key("a-b", "c-d"));
    assert_eq!(cache_key("git@host:org/repo", "feature/x-1"), "git_host_org_repo__feature_x-1");
}

#[test]
fn a_clone_of_another_pair_is_not_reused() {
    let paths = entry_paths("/p", &repo("v0.1.0"), CacheKind::Hooks).unwrap();
    let other_rev = plan_entry(false, cached(), &repo("v0_1.0"), &paths.clone_dir);
    assert!(other_rev.wipe);
    assert!(other_rev.reuse.is_none());
    let elsewhere =
        RepoRef { repo: "https://example.com_foo".to_string(), rev: "v0.1.0".to_string() };
    let other_repo = plan_entry(false, cached(), &elsewhere, &paths.clone_dir);
    assert!(other_repo.wipe);
    assert!(other_repo.reuse.is_none());
    let unread = EntryFacts { meta: None, ..cached() };
    let plan = plan_entry(false, unread, &repo("v0.1.0"), &paths.clone_dir);
    assert!(plan.wipe && plan.reuse.is_none());
}

#[test]
fn a_shallow_clone_falls_back_to_a_whole_one() {
    let failed = GitEnd::Failed("fatal: no such branch".to_string());
    assert!(matches!(
        clone_next(CloneStage::Shallow, failed, "r", "v"),
        CloneNext::CloneWhole
    ));
    assert!(matches!(
        clone_next(CloneStage::Full, GitEnd::Succeeded, "r", "v"),
        CloneNext::CheckOut
    ));
    assert!(matches!(
        clone_next(CloneStage::Checkout, GitEnd::Succeeded, "r", "v"),
        CloneNext::Done
    ));
    let broken = GitEnd::Failed("fatal".to_string());
    assert!(matches!(
        clone_next(CloneStage::Full, broken, "r", "v"),
        CloneNext::Stop(CacheError::CloneFailed { .. })
    ));
    let args = clone_args(CloneStage::Shallow, "r", "v", "/d");
    assert!(args.contains(&"clone".to_string()));
    assert_eq!(args.last().map(String::as_str), Some("/d"));
}

#[test]
fn the_resolved_hash_is_trimmed() {
    assert_eq!(resolved_sha(GitEnd::Succeeded, "abc\n").unwrap(), "abc");
    let err = resolved_sha(GitEnd::Failed(" bad \n".to_string()), "").unwrap_err();
    assert!(matches!(err, CacheError::GitFailed(m) if m == "rev-parse: bad"));
}
