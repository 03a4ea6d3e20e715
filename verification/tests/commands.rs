use croft::cli::ci::{ci_vars, is_ci};
use croft::cli::shell::{container_argv, shell_target, ShellTarget, NO_TARGET};
use croft::cli::watch::{
    banner, debounce, event_is_relevant, exit_line, is_hidden, is_ignored, rerun_line, watch_paths,
    watch_step, Change, WatchAction, WatchEvent,
};
use croft::cli::worktree::{
    assign, assign_target, collision_warning, collisions, identity_of, list_rows, offsets_of, pin,
    status, AssignFault,
};
use croft::config::model::{Config, EnvSpec};
use croft::textmap::TextMap;
use croft::worktree::{
    derive_slug, hash_offset, offset_for, parse_worktrees, slugify, BaseRef, Identity,
    WorktreeListEntry,
};

#[test]
fn ignored_segments_match() {
    assert!(is_ignored("/proj/target/debug/x"));
    assert!(is_ignored("/proj/.git/HEAD"));
    assert!(is_ignored("/proj/node_modules/foo"));
    assert!(!is_ignored("/proj/src/main.rs"));
}

fn change(access: bool, paths: &[&str]) -> Change {
    Change { access, paths: paths.iter().map(|p| p.to_string()).collect() }
}

#[test]
fn only_edits_of_watched_files_count() {
    assert!(event_is_relevant(&change(false, &["/p/src/a.rs"]), None));
    assert!(!event_is_relevant(&change(true, &["/p/src/a.rs"]), None));
    assert!(!event_is_relevant(&change(false, &["/p/target/x"]), None));
    assert!(event_is_relevant(&change(false, &["/p/target/x", "/p/a"]), None));
    assert!(event_is_relevant(&change(false, &["/p/.env"]), None));
    assert!(!event_is_relevant(&change(false, &["/p/.env"]), Some("/p")));
    assert!(is_hidden("/p/a/.cache/x", "/p"));
    assert!(!is_hidden("/home/.p/a/x", "/home/.p"));
}

#[test]
fn changes_put_a_run_off() {
    let edit = WatchEvent::Changed(change(false, &["/p/a"]), 1000);
    assert_eq!(watch_step(None, &edit, None, 300), WatchAction::Wait(Some(1300)));
    let noise = WatchEvent::Changed(change(false, &["/p/.git/x"]), 1200);
    assert_eq!(watch_step(Some(1300), &noise, None, 300), WatchAction::Wait(Some(1300)));
    assert_eq!(watch_step(Some(1300), &WatchEvent::Due, None, 300), WatchAction::Rerun);
    assert_eq!(watch_step(None, &WatchEvent::Closed, None, 300), WatchAction::Finish);
}

#[test]
fn watching_says_what_it_does() {
    let watched = watch_paths("/p", vec![]);
    assert_eq!(watched, vec!["/p"]);
    assert_eq!(watch_paths("/p", vec!["src".to_string()]), vec!["src"]);
    assert_eq!(debounce(None), 300);
    assert_eq!(debounce(Some(5)), 5);
    assert_eq!(banner(&watched, 300), "Watching /p (debounce 300 ms). Initial run...");
    assert_eq!(rerun_line("test"), "\nFiles changed; re-running `test`...");
    assert_eq!(exit_line(0), "✓ exit 0");
    assert_eq!(exit_line(-2), "✗ exit -2");
}

#[test]
fn build_servers_are_told_by_their_variables() {
    assert_eq!(ci_vars().len(), 6);
    assert!(!is_ci(&vec![None, Some(String::new())]));
    assert!(is_ci(&vec![None, Some("true".to_string())]));
}

#[test]
fn shells_open_in_services_or_the_devcontainer() {
    let service = shell_target(false, Some("app")).unwrap();
    assert_eq!(
        service,
        ShellTarget::Service(
            ["compose", "exec", "-it", "app", "sh", "-c", "exec ${SHELL:-/bin/sh}"]
                .iter()
                .map(|s| s.to_string())
                .collect()
        )
    );
    assert_eq!(shell_target(true, None).unwrap(), ShellTarget::Devcontainer);
    let err = shell_target(false, None).unwrap_err();
    assert_eq!(err, NO_TARGET);
    assert_eq!(container_argv("c")[..3], ["exec", "-it", "c"]);
}

#[test]
fn slugs_hold_small_letters_digits_and_dashes() {
    assert_eq!(slugify("feature/x"), "feature-x");
    assert_eq!(slugify("Fix__THE Bug!"), "fix-the-bug");
    assert_eq!(slugify("///"), "");
    assert_eq!(slugify("main"), "main");
}

fn entry(path: &str, branch: Option<&str>, detached: bool) -> WorktreeListEntry {
    WorktreeListEntry { path: path.to_string(), branch: branch.map(str::to_string), detached }
}

#[test]
fn worktrees_are_called_after_their_branch_or_directory() {
    assert_eq!(derive_slug(&entry("/w/a", Some("Topic/Y"), false)), "topic-y");
    assert_eq!(derive_slug(&entry("/w/Some Dir", None, true)), "some-dir");
    assert_eq!(derive_slug(&entry("/w/a", None, false)), "");
}

#[test]
fn shared_offsets_are_warned_of() {
    let entries = vec![
        entry("/w/a", Some("a"), false),
        entry("/w/b", Some("b"), false),
        entry("/w/c", Some("c"), false),
        entry("/w/d", None, false),
        entry("/w/e", Some("e"), false),
    ];
    let offsets = vec![7, 3, 7, 3, 3];
    let mut config = Config::default();
    config.worktrees.assign.insert("b".to_string(), 3);
    let rows = list_rows(&config, &entries, &offsets);
    assert_eq!(rows[1].source, "pinned");
    assert_eq!(rows[0].source, "hash");
    assert_eq!(rows[3].branch, "<detached>");
    assert_eq!(rows[3].slug, "<empty>");
    let shared = collisions(&entries, &offsets);
    assert_eq!(shared, vec![3, 7]);
    let warning = collision_warning(&shared).unwrap();
    assert_eq!(warning[0], "\nwarning: 2 offset(s) collide between worktrees: {3, 7}");
    assert!(collision_warning(&collisions(&entries, &vec![1, 2, 3, 3, 4])).is_none());
}

#[test]
fn offsets_come_from_pins_or_from_the_hash() {
    let mut pins = TextMap::new();
    pins.insert("main".to_string(), 0);
    assert_eq!(offset_for("main", &pins, 1000, "demo"), 0);
    assert_eq!(offset_for("feature-x", &pins, 1000, "demo"), 830);
    assert_eq!(offset_for("main", &TextMap::new(), 1000, "demo"), 532);
    assert_eq!(offset_for("main", &TextMap::new(), 100, ""), 73);
    assert_eq!(offset_for("", &pins, 1000, "demo"), 0);
    assert_eq!(offset_for("feature-x", &pins, 0, "demo"), 0);
    assert_eq!(hash_offset(&vec![1, 2, 3, 4, 255], 100_000_000), 16_909_060);
    assert_eq!(hash_offset(&vec![255, 255, 255, 255], 1000), 295);
}

#[test]
fn identities_follow_the_branch_or_the_directory() {
    let mut config = Config::default();
    config.project.name = Some("demo".to_string());
    config.worktrees.assign.insert("topic".to_string(), 5);
    let entries = vec![
        entry("/w/a", Some("feature/x"), false),
        entry("/w/Topic", None, true),
        entry("/w/b", None, false),
    ];
    assert_eq!(offsets_of(&config, &entries), vec![830, 5, 0]);
    let on_branch = identity_of(&config, Some(&entries[0]), "a");
    assert_eq!(on_branch.slug, "feature-x");
    assert_eq!(on_branch.base_ref, BaseRef::Branch);
    assert_eq!(on_branch.base_label, "feature/x");
    assert_eq!(on_branch.offset, 830);
    let detached = identity_of(&config, Some(&entries[1]), "Topic");
    assert_eq!((detached.slug.as_str(), detached.offset), ("topic", 5));
    assert_eq!(detached.base_ref, BaseRef::WorktreeDir);
    assert_eq!(detached.base_label, "Topic");
    let outside = identity_of(&config, None, "a");
    assert_eq!(outside.base_ref, BaseRef::NoRepository);
    assert_eq!((outside.slug.as_str(), outside.offset), ("", 0));
}

fn identity(slug: &str) -> Identity {
    Identity {
        slug: slug.to_string(),
        base_ref: BaseRef::Branch,
        base_label: "feature/x".to_string(),
        offset: 7,
    }
}

#[test]
fn status_shows_the_identity_and_what_follows_from_it() {
    let mut config = Config::default();
    config.project.name = Some("demo".to_string());
    config.env.insert(
        "PORT".to_string(),
        EnvSpec {
            value: None,
            default: None,
            from_command: None,
            required: false,
            base: Some("8000".to_string()),
            offset: None,
        },
    );
    assert_eq!(
        status(&config, &identity("feature-x")),
        vec![
            "slug:       feature-x".to_string(),
            "base ref:   feature/x".to_string(),
            "base kind:  branch".to_string(),
            "offset:     7".to_string(),
            "modulus:    1000 (assignment: hash)".to_string(),
            "isolate:    true (compose project name applied)".to_string(),
            "                  → demo-feature-x".to_string(),
            "\nderived env:".to_string(),
            format!("  {:<20} = {}  (base {} + offset {})", "PORT", 8007, 8000, 7),
        ]
    );
    config.env.remove("PORT");
    let bare = status(&config, &identity(""));
    assert_eq!(bare[0], "slug:       <empty>");
    assert_eq!(bare[4], "modulus:    1000 (assignment: n/a)");
    assert_eq!(bare.len(), 6);
}

#[test]
fn assign_writes_new_entry() {
    let raw = "\n[project]\nname = \"x\"\n";
    let done = assign("feature/x", 7, false, "/p", raw).unwrap();
    assert_eq!(done.target, "/p/croft.toml");
    assert!(done.text.contains("[worktrees]"));
    assert!(done.text.contains("[worktrees.assign]"));
    assert!(done.text.contains("feature-x = 7"));
    assert!(done.text.contains("name = \"x\""));
    assert_eq!(
        done.message,
        "Pinned `feature-x` (from `feature/x`) → offset 7 in /p/croft.toml"
    );
}

#[test]
fn assign_local_writes_to_local_toml() {
    let done = assign("main", 0, true, "/p", "").unwrap();
    assert_eq!(done.target, "/p/.croft/local.toml");
    assert!(done.text.contains("main = 0"));
    assert_eq!(done.message, "Pinned `main` → offset 0 in /p/.croft/local.toml");
}

#[test]
fn assign_updates_existing_entry() {
    let raw = "\n[worktrees.assign]\nmain = 0\nfeature-x = 5\n";
    let done = assign("feature/x", 9, false, "/p", raw).unwrap();
    assert!(done.text.contains("feature-x = 9"));
    assert!(done.text.contains("main = 0"));
    let table = toml::from_str::<toml::Table>(&done.text).unwrap();
    assert_eq!(table["worktrees"]["assign"]["feature-x"].as_integer(), Some(9));
    assert_eq!(table["worktrees"]["assign"]["main"].as_integer(), Some(0));
}

#[test]
fn assign_rejects_empty_slug() {
    let err = assign("///", 1, false, "/p", "").unwrap_err();
    assert!(err.message().contains("empty string"));
    assert!(assign_target("///", true, "/p").is_err());
}

#[test]
fn assign_refuses_files_it_cannot_edit() {
    let unreadable = assign("x", 1, false, "/p", "= nothing").unwrap_err();
    assert_eq!(unreadable.message(), "parse /p/croft.toml");
    assert!(matches!(unreadable, AssignFault::Unreadable { reason, .. } if !reason.is_empty()));
    let outer = assign("x", 1, false, "/p", "worktrees = 3").unwrap_err();
    assert_eq!(outer.message(), "`worktrees` is not a table");
    let inner = assign("x", 1, false, "/p", "[worktrees]\nassign = [1]").unwrap_err();
    assert_eq!(inner.message(), "`worktrees.assign` is not a table");
}

#[test]
fn pins_keep_comments_and_other_pins() {
    let mut doc: toml_edit::DocumentMut =
        "# top\n[worktrees.assign]\nmain = 0 # zero\n".parse().unwrap();
    pin(&mut doc, "topic", 4).unwrap();
    let text = doc.to_string();
    assert!(text.contains("# top"));
    assert!(text.contains("main = 0 # zero"));
    assert!(text.contains("topic = 4"));
}

#[test]
fn pinning_keeps_how_a_file_is_written() {
    let raw = "# top\n[project]\nname = \"p\"   # the name\n\n[worktrees]\nmodulus=7\n# end\n";
    let done = assign("topic", 4, false, "/p", raw).unwrap();
    assert!(done.text.starts_with("# top\n[project]\nname = \"p\"   # the name\n\n[worktrees]\nmodulus=7\n"));
    assert!(done.text.contains("[worktrees.assign]\ntopic = 4\n"));
    assert!(done.text.contains("# end\n"));
}

#[test]
fn listed_worktrees_keep_their_branches() {
    let printed = "worktree /p\nHEAD 1f\nbranch refs/heads/main\n\n\
        worktree /q\nHEAD 2e\ndetached\n";
    let entries = parse_worktrees(printed);
    assert_eq!(entries.len(), 2);
    assert_eq!(entries[0].path, "/p");
    assert_eq!(entries[0].branch.as_deref(), Some("main"));
    assert!(!entries[0].detached);
    assert_eq!(entries[1].path, "/q");
    assert_eq!(entries[1].branch, None);
    assert!(entries[1].detached);
    assert!(parse_worktrees("branch refs/heads/main\n").is_empty());
}
