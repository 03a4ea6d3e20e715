use croft::config::model::{
    Backend, Config, CustomService, Recipe, Run, SystemdScope, SystemdService, UiPane,
};
use croft::textmap::TextMap;
use croft::tui::app::{
    collect_service_panes, App, ConfirmAction, Item, ItemKind, LaunchRejection, Mode, RunEntry,
    ServiceAction,
};
use croft::tui::diff::{DiffFile, DiffLine, DiffLineKind, DiffStatus};
use croft::tui::matcher::{score_name, takes, MAX_WORD};
use croft::tui::palette::{drop_command, rank_matches, Match, Palette, MAX_MATCHES};
use croft::tui::runner::{
    push_capped, CapturedLine, OutputStream, RunOutcome, RunState, OUTPUT_BUFFER_CAP,
};
use croft::tui::services::{ServicePane, TailExit};
use croft::tui::terminals::{TerminalsRow, TmuxWindow};
use croft::tui::view::View;
use croft::tui::watchers::{
    any_watched, compile_globs, matches_glob_relative, WatcherError, WatcherInput, WatcherPane,
    WatcherState,
};
use croft::tui::worker::{WorkerCommand, WorkerEvent, WorkerState, WorkerStep};
use croft::tui::worktrees::{
    build_worktree_rows, create_worktree_args, resolve_form, BranchSpec, NewFormField,
    NewWorktreeAction, NewWorktreeForm, WorktreeRow,
};
use croft::worktree::WorktreeListEntry;
use std::collections::VecDeque;
use std::sync::Arc;

fn recipe(run: &str) -> Recipe {
    Recipe {
        desc: None,
        run: Run::Single(run.to_string()),
        service: None,
        tty: false,
        env: TextMap::new(),
        needs: vec![],
        forward_args: false,
        parallel: false,
        profile: TextMap::new(),
    }
}

fn bare() -> Config {
    let mut config = Config::default();
    config.runtime.backend = Backend::NoRuntime;
    config
}

fn service_pane(name: &str) -> UiPane {
    UiPane::Service { service: name.to_string(), key: None }
}

fn cfg() -> Arc<Config> {
    let mut config = bare();
    config.commands.insert("up".to_string(), recipe("true"));
    let mut test = recipe("true");
    test.desc = Some("Run tests".to_string());
    config.commands.insert("test".to_string(), test);
    Arc::new(config)
}

#[test]
fn build_items_orders_services_recipes_scripts() {
    let mut config = bare();
    config.commands.insert("up".to_string(), recipe("true"));
    config.ui.panes.push(service_pane("app"));
    let app = App::new(Arc::new(config));
    assert_eq!(app.items().len(), 2);
    assert_eq!(app.items()[0].kind, ItemKind::Service);
    assert_eq!(app.items()[0].name, "app");
    assert_eq!(app.items()[1].kind, ItemKind::Recipe);
}

#[test]
fn service_panes_start_empty_under_their_names() {
    let mut config = bare();
    config.ui.panes.push(service_pane("app"));
    config.ui.panes.push(service_pane("worker"));
    let app = App::new(Arc::new(config));
    assert_eq!(app.services.len(), 2);
    for i in 0..2 {
        let pane = app.services.value_at(i);
        assert_eq!(pane.name, *app.services.key_at(i));
        assert!(pane.buffer.is_empty() && !pane.is_tailing() && pane.tail_error.is_none());
    }
}

#[test]
fn container_row_appears_when_backend_configured() {
    let mut config = bare();
    config.runtime.backend = Backend::Compose;
    config.commands.insert("up".to_string(), recipe("true"));
    let app = App::new(Arc::new(config));
    assert_eq!(app.items()[0].kind, ItemKind::Container);
    assert_eq!(app.items()[0].name, "compose");
}

#[test]
fn no_container_row_when_backend_none() {
    let mut config = bare();
    config.commands.insert("up".to_string(), recipe("true"));
    let app = App::new(Arc::new(config));
    assert!(app.items().iter().all(|i| i.kind != ItemKind::Container));
}

#[test]
fn collect_service_panes_picks_up_ui_services() {
    let mut config = Config::default();
    config.ui.panes.push(service_pane("app"));
    config.ui.panes.push(service_pane("worker"));
    let panes = collect_service_panes(&config);
    assert_eq!(panes.len(), 2);
    assert!(panes.contains_key("app"));
    assert!(panes.contains_key("worker"));
}

#[test]
fn launch_rejects_service_selection() {
    let mut config = bare();
    config.ui.panes.push(service_pane("app"));
    let mut app = App::new(Arc::new(config)).with_executor();
    let err = app.try_launch_selected().unwrap_err();
    match err {
        LaunchRejection::NotRunnable(msg) => assert!(msg.contains("service panes")),
        other => panic!("unexpected: {other:?}"),
    }
}

#[test]
fn navigation_clamps_at_bounds() {
    let mut app = App::new(cfg());
    app.select_prev();
    assert_eq!(app.selected_index(), 0);
    app.select_next();
    assert_eq!(app.selected_index(), 1);
    app.select_next();
    assert_eq!(app.selected_index(), 1);
    app.select_first();
    assert_eq!(app.selected_index(), 0);
    app.select_last();
    assert_eq!(app.selected_index(), 1);
}

#[test]
fn quit_flag_propagates() {
    let mut app = App::new(cfg());
    assert!(!app.should_quit());
    app.quit();
    assert!(app.should_quit());
}

#[test]
fn truly_empty_config_has_no_items() {
    let app = App::new(Arc::new(bare()));
    assert_eq!(app.items().len(), 0);
    assert!(app.selected_item().is_none());
}

#[test]
fn launch_without_executor_is_rejected() {
    let mut app = App::new(cfg());
    let err = app.try_launch_selected().unwrap_err();
    assert!(matches!(err, LaunchRejection::NoExecutor));
}

#[test]
fn launch_rejects_in_container_recipe() {
    let mut config = bare();
    let mut shell = recipe("/bin/sh");
    shell.service = Some("app".to_string());
    config.commands.insert("shell".to_string(), shell);
    let mut app = App::new(Arc::new(config)).with_executor();
    let err = app.try_launch_selected().unwrap_err();
    match err {
        LaunchRejection::NotRunnable(msg) => assert!(msg.contains("in-container")),
        other => panic!("unexpected: {other:?}"),
    }
}

fn rows() -> Vec<WorktreeRow> {
    vec![
        WorktreeRow {
            path: "/repo".to_string(),
            branch: Some("main".to_string()),
            slug: "main".to_string(),
            is_current: true,
        },
        WorktreeRow {
            path: "/repo-feature".to_string(),
            branch: Some("feature".to_string()),
            slug: "feature".to_string(),
            is_current: false,
        },
    ]
}

#[test]
fn switcher_open_preselects_current_row() {
    let mut app = App::new(cfg());
    app.open_worktree_switcher(rows());
    assert_eq!(app.mode(), Mode::WorktreeSwitcher);
    let s = app.switcher().unwrap();
    assert_eq!(s.selected, 0);
}

#[test]
fn switcher_confirm_on_current_row_no_pending_switch() {
    let mut app = App::new(cfg());
    app.open_worktree_switcher(rows());
    let acted = app.switcher_confirm();
    assert!(acted);
    assert!(app.pending_switch.is_none());
    assert_eq!(app.mode(), Mode::Normal);
}

#[test]
fn switcher_confirm_on_other_row_queues_switch() {
    let mut app = App::new(cfg());
    app.open_worktree_switcher(rows());
    app.switcher_select_next();
    let acted = app.switcher_confirm();
    assert!(acted);
    assert_eq!(app.take_pending_switch(), Some("/repo-feature".to_string()));
}

#[test]
fn switcher_navigation_extends_to_new_row_sentinel() {
    let mut app = App::new(cfg());
    app.open_worktree_switcher(rows());
    app.switcher_select_next();
    app.switcher_select_next();
    assert_eq!(app.switcher().unwrap().selected, 2);
    app.switcher_select_next();
    assert_eq!(app.switcher().unwrap().selected, 2);
}

fn app_with_form() -> App {
    let mut app = App::new(cfg());
    app.open_worktree_switcher(rows());
    app.switcher_select_next();
    app.switcher_select_next();
    app.switcher_confirm();
    app
}

#[test]
fn switcher_confirm_on_new_row_opens_form() {
    let app = app_with_form();
    assert_eq!(app.mode(), Mode::WorktreeSwitcher);
    assert!(app.switcher().unwrap().creating.is_some());
}

#[test]
fn switcher_form_finish_ok_queues_switch() {
    let mut app = app_with_form();
    app.switcher_form_finish(Ok("/repo-new".to_string()));
    assert_eq!(app.take_pending_switch(), Some("/repo-new".to_string()));
    assert_eq!(app.mode(), Mode::Normal);
}

#[test]
fn switcher_form_finish_err_keeps_form_open_with_error() {
    let mut app = app_with_form();
    app.switcher_form_finish(Err("git: branch already exists".to_string()));
    assert_eq!(app.mode(), Mode::WorktreeSwitcher);
    let form = app.switcher().unwrap().creating.as_ref().unwrap();
    assert_eq!(form.error.as_deref(), Some("git: branch already exists"));
}

#[test]
fn switcher_form_focus_toggles_between_path_and_branch() {
    let mut app = app_with_form();
    let initial = app.switcher().unwrap().creating.as_ref().unwrap().focus;
    app.switcher_form_toggle_focus();
    let toggled = app.switcher().unwrap().creating.as_ref().unwrap().focus;
    assert_ne!(initial, toggled);
}

#[test]
fn switcher_form_typing_is_undone_by_erasing() {
    let mut app = app_with_form();
    let before = app.switcher_form_snapshot().unwrap();
    app.switcher_form_push_char('x');
    let typed = app.switcher_form_snapshot().unwrap();
    assert_eq!(typed.branch_input, format!("{}x", before.branch_input));
    app.switcher_form_pop_char();
    assert_eq!(app.switcher_form_snapshot().unwrap().branch_input, before.branch_input);
}

#[test]
fn worktree_rows_flag_the_current_directory() {
    let entries = vec![
        WorktreeListEntry {
            path: "/w/repo".to_string(),
            branch: Some("feature/X".to_string()),
            detached: false,
        },
        WorktreeListEntry { path: "/w/Pinned".to_string(), branch: None, detached: true },
    ];
    let canonical = vec!["/real/repo".to_string(), "/real/pinned".to_string()];
    let rows = build_worktree_rows(&entries, &canonical, "/real/repo/");
    assert_eq!(rows[0].slug, "feature-x");
    assert!(rows[0].is_current);
    assert_eq!(rows[1].slug, "pinned");
    assert!(!rows[1].is_current);
}

#[test]
fn new_worktrees_attach_or_create_a_branch() {
    let existing = NewWorktreeAction {
        path: "/repo-x".to_string(),
        branch: BranchSpec::Existing("x".to_string()),
    };
    assert_eq!(
        create_worktree_args(&existing).unwrap(),
        vec!["worktree", "add", "/repo-x", "x"]
    );
    let created = NewWorktreeAction {
        path: "/repo-y".to_string(),
        branch: BranchSpec::CreateOff("y".to_string()),
    };
    assert_eq!(
        create_worktree_args(&created).unwrap(),
        vec!["worktree", "add", "-b", "y", "/repo-y"]
    );
}

#[test]
fn terminals_default_has_one_shell_row() {
    let app = App::new(cfg());
    assert_eq!(app.terminals().terminals.len(), 1);
    assert_eq!(app.terminals().terminals[0].name, "shell");
}

fn app_with_terminal_form() -> App {
    let mut app = App::new(cfg());
    let total = app.terminals_rows().len();
    for _ in 0..total {
        app.terminals_select_next();
    }
    app.terminals_confirm();
    app
}

fn type_in(app: &mut App, text: &str) {
    for c in text.chars() {
        app.terminals_form_push_char(c);
    }
}

#[test]
fn terminals_form_submit_adds_row() {
    let mut app = app_with_terminal_form();
    type_in(&mut app, "build");
    app.terminals_form_toggle_focus();
    type_in(&mut app, "make");
    app.terminals_form_submit();
    assert!(app.terminals().creating.is_none());
    assert!(app.terminals().terminals.iter().any(|t| t.name == "build"));
}

#[test]
fn terminals_form_rejects_empty_name() {
    let mut app = app_with_terminal_form();
    app.terminals_form_submit();
    let form = app.terminals().creating.as_ref().unwrap();
    assert_eq!(form.error.as_deref(), Some("name is required"));
}

#[test]
fn terminals_form_rejects_duplicate_name() {
    let mut app = app_with_terminal_form();
    type_in(&mut app, "shell");
    app.terminals_form_submit();
    let form = app.terminals().creating.as_ref().unwrap();
    assert!(form.error.as_deref().unwrap().contains("already exists"));
}

#[test]
fn terminals_delete_removes_only_custom_rows() {
    let mut app = app_with_terminal_form();
    type_in(&mut app, "extra");
    app.terminals_form_submit();
    let rows = app.terminals_rows();
    let idx = rows
        .iter()
        .position(|r| matches!(r, TerminalsRow::Terminal(t) if t.name == "extra"))
        .unwrap();
    app.terminals.selected = idx;
    app.terminals_delete_selected();
    assert!(!app.terminals().terminals.iter().any(|t| t.name == "extra"));
    assert!(app.terminals().terminals.iter().any(|t| t.name == "shell"));
}

#[test]
fn terminals_confirm_on_shell_row_queues_attach() {
    let mut app = App::new(cfg());
    app.terminals.selected = 0;
    app.terminals_confirm();
    let req = app.take_pending_attach().unwrap();
    assert!(req.session.starts_with("scaffl-"));
    assert_eq!(req.window, "shell");
    assert!(req.create_with.as_deref().unwrap().contains("SHELL"));
}

#[test]
fn terminals_and_getters_hand_out_what_they_hold() {
    let mut app = App::new(cfg());
    app.terminals_mut().selected = 1;
    assert_eq!(app.terminals().selected, 1);
    app.services_mut().insert("db".to_string(), ServicePane::new("db".to_string()));
    assert!(app.services().contains_key("db"));
    assert!(app.palette_mut().is_none());
    app.open_palette();
    app.palette_mut().unwrap().push_char('u');
    assert_eq!(app.palette().unwrap().input(), "u");
}

#[test]
fn diff_line_kind_classifies_known_prefixes() {
    assert_eq!(DiffLineKind::classify("@@ -1,5 +1,5 @@"), DiffLineKind::Hunk);
    assert_eq!(DiffLineKind::classify("diff --git a/x b/x"), DiffLineKind::Header);
    assert_eq!(DiffLineKind::classify("--- a/x"), DiffLineKind::Header);
    assert_eq!(DiffLineKind::classify("+++ b/x"), DiffLineKind::Header);
    assert_eq!(DiffLineKind::classify("+ added"), DiffLineKind::Added);
    assert_eq!(DiffLineKind::classify("- removed"), DiffLineKind::Removed);
    assert_eq!(DiffLineKind::classify(" context"), DiffLineKind::Context);
    assert_eq!(DiffLineKind::classify(""), DiffLineKind::Context);
}

#[test]
fn queue_service_attach_jumps_view_and_sets_request() {
    let mut app = App::new(cfg());
    app.queue_service_attach("app").unwrap();
    assert_eq!(app.view(), View::Terminals);
    let req = app.take_pending_attach().unwrap();
    assert_eq!(req.window, "svc:app");
    assert!(req.create_with.as_deref().unwrap().contains("docker compose"));
}

#[test]
fn queue_service_attach_rejects_systemd_service() {
    let mut config = bare();
    config.services.systemd.push(SystemdService {
        name: "postgres".to_string(),
        desc: None,
        unit: "postgresql.service".to_string(),
        scope: SystemdScope::User,
    });
    let mut app = App::new(Arc::new(config));
    let err = app.queue_service_attach("postgres").unwrap_err();
    assert!(err.contains("systemd"), "msg: {err}");
    assert_eq!(app.view(), View::ControlCenter);
    assert!(app.take_pending_attach().is_none());
}

#[test]
fn queue_service_attach_rejects_custom_service() {
    let mut config = bare();
    config.services.custom.push(CustomService {
        name: "tunnel".to_string(),
        desc: None,
        status: "true".to_string(),
        start: "true".to_string(),
        stop: "true".to_string(),
        restart: None,
        logs: None,
    });
    let mut app = App::new(Arc::new(config));
    let err = app.queue_service_attach("tunnel").unwrap_err();
    assert!(err.contains("custom"), "msg: {err}");
}

fn diff_file(path: &str, status: DiffStatus) -> DiffFile {
    DiffFile { path: path.to_string(), status, additions: 0, deletions: 0, binary: false }
}

#[test]
fn diff_select_clamps_at_bounds() {
    let mut app = App::new(cfg());
    app.diff_set_files(vec![
        diff_file("a", DiffStatus::Modified),
        diff_file("b", DiffStatus::Added),
    ]);
    app.diff_select_next();
    assert_eq!(app.diff().selected, 1);
    app.diff_select_next();
    assert_eq!(app.diff().selected, 1);
    app.diff_select_prev();
    assert_eq!(app.diff().selected, 0);
    app.diff_select_prev();
    assert_eq!(app.diff().selected, 0);
}

#[test]
fn diff_mark_stale_clears_cache() {
    let mut app = App::new(cfg());
    app.diff_set_files(vec![diff_file("a", DiffStatus::Modified)]);
    app.diff_set_cache("a".to_string(), vec![]);
    assert!(app.diff_cache_for("a").is_some());
    app.diff_mark_stale();
    assert!(app.diff_cache_for("a").is_none());
    assert!(!app.diff().loaded);
}

#[test]
fn diff_cache_gives_back_what_was_put_in() {
    let mut app = App::new(cfg());
    app.diff_set_files(vec![diff_file("a", DiffStatus::Modified)]);
    let line = DiffLine {
        kind: DiffLineKind::Added,
        text: "+x".to_string(),
        old_lineno: None,
        new_lineno: Some(1),
    };
    app.diff_set_cache("a".to_string(), vec![line]);
    assert_eq!(app.diff_cache_for("a").unwrap()[0].text, "+x");
}

fn palette_items() -> Vec<Item> {
    vec![
        Item { name: "test".to_string(), kind: ItemKind::Recipe },
        Item { name: "migrate".to_string(), kind: ItemKind::Recipe },
        Item { name: "seed".to_string(), kind: ItemKind::Script },
        Item { name: "app".to_string(), kind: ItemKind::Service },
    ]
}

fn matched(palette: &Palette) -> Vec<String> {
    let items = palette_items();
    palette.matches().iter().map(|m| items[m.item_index].name.clone()).collect()
}

#[test]
fn services_are_excluded_from_candidates() {
    let palette = Palette::new(&palette_items());
    assert_eq!(palette.matches().len(), 3);
    let names = matched(&palette);
    assert!(!names.contains(&"app".to_string()));
    assert_eq!(names, vec!["test", "migrate", "seed"]);
}

#[test]
fn fuzzy_search_filters_and_ranks() {
    let mut palette = Palette::new(&palette_items());
    for c in "mig".chars() {
        palette.push_char(c);
    }
    let names = matched(&palette);
    assert!(names.contains(&"migrate".to_string()));
    assert_eq!(names.first().map(String::as_str), Some("migrate"));
}

#[test]
fn ranked_matches_descend() {
    let mut palette = Palette::new(&palette_items());
    palette.push_char('e');
    let scores: Vec<u32> = palette.matches().iter().map(|m| m.score).collect();
    assert_eq!(scores.len(), 3);
    assert!(scores.windows(2).all(|w| w[0] >= w[1]));
    assert!(scores[2] > 0);
}

#[test]
fn navigation_wraps() {
    let mut palette = Palette::new(&palette_items());
    let n = palette.matches().len();
    assert_eq!(palette.selected(), 0);
    palette.select_prev();
    assert_eq!(palette.selected(), n - 1);
    palette.select_next();
    assert_eq!(palette.selected(), 0);
}

#[test]
fn pop_char_recomputes() {
    let mut palette = Palette::new(&palette_items());
    palette.push_char('z');
    assert!(palette.matches().is_empty());
    palette.pop_char();
    assert_eq!(palette.matches().len(), 3);
}

#[test]
fn empty_after_unmatched_pattern() {
    let mut palette = Palette::new(&palette_items());
    for c in "xyzqq".chars() {
        palette.push_char(c);
    }
    assert!(palette.matches().is_empty());
    assert!(palette.selected_match().is_none());
}

fn typed(names: &[&str], query: &str) -> Palette {
    let items: Vec<Item> =
        names.iter().map(|n| Item { name: n.to_string(), kind: ItemKind::Recipe }).collect();
    let mut palette = Palette::new(&items);
    for c in query.chars() {
        palette.push_char(c);
    }
    palette
}

#[test]
fn accents_are_matched_where_they_are_typed() {
    assert_eq!(typed(&["t\u{e4}st", "tast"], "\u{e4}s").matches().len(), 1);
    assert_eq!(typed(&["t\u{e4}st", "tast"], "as").matches().len(), 2);
}

#[test]
fn a_stretch_that_begins_unevenly_does_not_match() {
    let micro = "\u{b5}x\u{3bc}y\u{e4}";
    let long_s = "\u{17f}xsy\u{e4}";
    assert!(!takes("\u{3bc}\u{e4}", micro));
    assert!(!takes("s\u{e4}", long_s));
    assert!(!takes("xy s\u{e4}", long_s));
    assert!(typed(&[micro], "\u{3bc}\u{e4}").matches().is_empty());
    assert!(typed(&[long_s], "s\u{e4}").matches().is_empty());
    assert_eq!(typed(&[long_s, "xsy\u{e4}"], "xy").matches().len(), 2);
}

#[test]
fn partly_folded_letters_match_where_no_stretch_begins_with_one() {
    assert!(takes("xy", "\u{b5}x\u{3bc}y\u{e4}"));
    assert!(takes("s\u{e4}", "xsy\u{e4}"));
    assert!(takes("x\u{e4}", "\u{17f}xsy\u{e4}"));
    assert!(takes("s\u{e4}", "\u{17f}xy\u{e4}"));
    assert!(takes("s\u{e4}", "\u{17f}\u{e4}!"));
    assert_eq!(score_name("s\u{e4}", "\u{17f}xy\u{e4}"), None);
    assert!(score_name("s\u{e4}", "\u{17f}\u{e4}!").is_some());
    assert_eq!(typed(&["\u{17f}xsy\u{e4}"], "x\u{e4}").matches().len(), 1);
    assert_eq!(typed(&["xs\u{17f}y\u{e4}"], "s\u{e4}").matches().len(), 1);
    assert_eq!(typed(&["!\u{17f}\u{e4}"], "'\u{e4}").matches().len(), 1);
    let greek = "\u{3bb}\u{3cc}\u{3b3}\u{3bf}\u{3c2}";
    assert_eq!(typed(&[greek], "\u{3bb}\u{3b3}").matches().len(), 1);
    assert_eq!(typed(&[greek], "\u{3cc}\u{3b3}").matches().len(), 1);
}

#[test]
fn a_long_query_is_searched_whole() {
    let mut query = "seed".to_string();
    query.push_str(&" ".repeat(4_000));
    let palette = typed(&["test", "seed"], &query);
    assert_eq!(palette.input(), query);
    assert_eq!(palette.matches().len(), 1);
    assert_eq!(palette.matches()[0].item_index, 1);
    query.push_str("zzz");
    assert!(typed(&["test", "seed"], &query).matches().is_empty());
    let many = "seed ".repeat(900);
    assert!(score_name(&many, "seed").unwrap() > score_name("seed", "seed").unwrap());
}

#[test]
fn a_long_word_is_held_against_shorter_names_and_long_ones() {
    let word = "a".repeat(MAX_WORD);
    assert!(score_name(&word, &word).is_some());
    assert!(score_name(&word, &"ab".repeat(MAX_WORD)).is_some());
    let longer = "a".repeat(MAX_WORD + 1);
    assert!(takes(&longer, &word));
    assert_eq!(score_name(&longer, &word), None);
    assert!(!takes(&longer, &longer));
    assert_eq!(score_name(&longer, &longer), None);
}

#[test]
fn palette_arguments_are_split_like_a_shell_does() {
    let mut palette = Palette::new(&palette_items());
    for c in "test 'one two' three".chars() {
        palette.push_char(c);
    }
    assert_eq!(palette.parsed_args(), vec!["one two", "three"]);
}

#[test]
fn push_capped_evicts_oldest() {
    let mut buf = VecDeque::new();
    for i in 0..(OUTPUT_BUFFER_CAP + 5) {
        push_capped(
            &mut buf,
            CapturedLine { stream: OutputStream::Stdout, text: format!("line {i}") },
        );
    }
    assert_eq!(buf.len(), OUTPUT_BUFFER_CAP);
    assert_eq!(buf.front().unwrap().text, "line 5");
}

#[test]
fn a_run_ends_once() {
    let mut run = RunState::begun("test".to_string());
    assert!(!run.is_done());
    let line = CapturedLine { stream: OutputStream::Stderr, text: "oops".to_string() };
    assert_eq!(run.drain(vec![line]), 1);
    run.complete(RunOutcome::Exited(2));
    assert!(run.is_done());
    assert_eq!(run.exit_code, Some(2));
    assert_eq!(run.status_label("3"), "test · ✗ exit 2");
}

#[test]
fn new_pane_starts_empty() {
    let pane = ServicePane::new("app".to_string());
    assert_eq!(pane.name, "app");
    assert!(!pane.is_tailing());
    assert!(pane.buffer.is_empty());
    assert!(pane.tail_error.is_none());
}

#[test]
fn drain_with_no_rx_returns_zero() {
    let mut pane = ServicePane::new("app".to_string());
    assert_eq!(pane.drain(vec![]), 0);
}

#[test]
fn a_tail_that_fails_is_reported() {
    let mut pane = ServicePane::new("app".to_string());
    pane.ensure_tailing(Ok(()));
    assert!(pane.is_tailing());
    let last = CapturedLine { stream: OutputStream::Stderr, text: "no such service".to_string() };
    pane.tail_exited(vec![last], TailExit { success: false, code: Some(1) });
    assert!(!pane.is_tailing());
    assert!(pane.tail_error.is_some());
}

#[test]
fn glob_set_matches_relative_paths() {
    let set = compile_globs(&vec!["src/**/*.rs".to_string()]).unwrap();
    assert!(set.is_match("src/lib.rs"));
    assert!(set.is_match("src/foo/bar.rs"));
    assert!(!set.is_match("README.md"));
}

#[test]
fn matches_glob_relative_strips_root() {
    let set = compile_globs(&vec!["src/**".to_string()]).unwrap();
    assert!(matches_glob_relative(&set, "/proj/src/main.rs", "/proj"));
    assert!(!matches_glob_relative(&set, "/proj/Cargo.toml", "/proj"));
    let changed = vec!["/proj/Cargo.toml".to_string(), "/proj/src/x".to_string()];
    assert!(any_watched(&set, &changed, "/proj"));
}

#[test]
fn an_invalid_glob_is_named() {
    let bad = compile_globs(&vec!["src/**".to_string(), "a{b".to_string()]);
    match bad.unwrap_err() {
        WatcherError::Glob(failure) => {
            assert_eq!(failure.pattern, "a{b");
            assert!(!failure.message.is_empty());
        }
        other => panic!("unexpected: {other:?}"),
    }
}

#[test]
fn pane_starts_in_idle_state() {
    let pane = WatcherPane::new(
        "test".to_string(),
        "echo".to_string(),
        vec!["**/*".to_string()],
        300,
    );
    assert_eq!(pane.state, WatcherState::Idle);
    assert!(pane.last_exit_code.is_none());
    assert!(pane.buffer.is_empty());
}

fn tick_at(now: u64, had_event: bool, finished: Option<RunOutcome>) -> WatcherInput {
    WatcherInput { now, had_event, output: vec![], finished }
}

#[test]
fn a_watcher_waits_until_changes_settle() {
    let mut pane = WatcherPane::new("w".to_string(), "test".to_string(), vec![], 300);
    assert!(!pane.tick(tick_at(0, true, None)));
    assert_eq!(pane.state, WatcherState::Debouncing);
    assert!(!pane.tick(tick_at(200, true, None)));
    assert!(!pane.tick(tick_at(400, false, None)));
    assert!(pane.tick(tick_at(500, false, None)));
    assert_eq!(pane.state, WatcherState::Running);
    assert!(!pane.tick(tick_at(900, false, Some(RunOutcome::Exited(0)))));
    assert_eq!(pane.state, WatcherState::Idle);
    assert_eq!(pane.last_exit_code, Some(0));
}

#[test]
fn poke_triggers_immediate_snapshot() {
    let mut state = WorkerState { services: vec!["api".to_string(), "db".to_string()] };
    let step = state.step(WorkerEvent::Command(Some(WorkerCommand::PokeServiceStatus)));
    assert!(matches!(step, WorkerStep::Poll | WorkerStep::PollAndCheck));
    assert!(state.services.contains(&"api".to_string()));
    assert!(state.services.contains(&"db".to_string()));
}

#[test]
fn set_services_replaces_the_poll_set() {
    let mut state = WorkerState { services: vec!["old".to_string()] };
    let replace = WorkerCommand::SetServices(vec!["new".to_string()]);
    let _ = state.step(WorkerEvent::Command(Some(replace)));
    let step = state.step(WorkerEvent::Command(Some(WorkerCommand::PokeServiceStatus)));
    assert!(matches!(step, WorkerStep::Poll | WorkerStep::PollAndCheck));
    assert_eq!(state.services, vec!["new"]);
    assert!(matches!(state.step(WorkerEvent::Command(None)), WorkerStep::Stop));
    assert!(matches!(
        state.step(WorkerEvent::Command(Some(WorkerCommand::Shutdown))),
        WorkerStep::Stop
    ));
}

#[test]
fn only_rows_that_run_are_restarted() {
    let mut app = App::new(cfg()).with_executor();
    let launch = app.try_launch_selected().unwrap();
    assert_eq!(launch.name, "test");
    assert_eq!(launch.kind, ItemKind::Recipe);
    app.runs.push(RunEntry {
        kind: ItemKind::Recipe,
        name: "test".to_string(),
        run: RunState::begun("test".to_string()),
    });
    assert!(matches!(
        app.try_launch_selected().unwrap_err(),
        LaunchRejection::AlreadyRunning
    ));
    assert!(app.abort_selected_run());
    app.open_kill_restart_confirm();
    assert_eq!(app.mode(), Mode::Confirm);
    match &app.confirm_dialog().unwrap().action {
        ConfirmAction::KillAndRestart { kind, name } => {
            assert_eq!(*kind, ItemKind::Recipe);
            assert_eq!(name, "test");
        }
    }
    let relaunch = app.confirm_resolve(true).unwrap();
    assert!(relaunch.aborted);
    assert_eq!(relaunch.outcome.unwrap().name, "test");
}

#[test]
fn the_confirmation_focus_toggles_back() {
    let mut app = App::new(cfg()).with_executor();
    app.open_kill_restart_confirm();
    if let Some(before) = app.confirm_dialog().map(|d| d.yes_focused) {
        app.confirm_toggle_focus();
        assert_ne!(app.confirm_dialog().unwrap().yes_focused, before);
        app.confirm_toggle_focus();
        assert_eq!(app.confirm_dialog().unwrap().yes_focused, before);
    }
}

#[test]
fn service_actions_need_a_backend() {
    let app = App::new(cfg());
    assert!(matches!(app.check_service_action(), Err(LaunchRejection::NoExecutor)));
    let mut config = bare();
    config.runtime.backend = Backend::Compose;
    config.commands.insert("up".to_string(), recipe("true"));
    let mut app = App::new(Arc::new(config)).with_backend();
    assert!(app.check_service_action().is_ok());
    app.select_last();
    let services = vec!["app".to_string()];
    let failed = app.run_service_action(ServiceAction::Stop, &services, Err("gone".to_string()));
    assert!(matches!(failed, Err(LaunchRejection::NotRunnable(msg)) if msg == "gone"));
    assert!(app.lifecycle_run().is_none());
    assert!(app.run_service_action(ServiceAction::Restart, &services, Ok(())).is_ok());
    assert_eq!(app.lifecycle_run().unwrap().name, "compose restart app");
    assert_eq!(app.selected_item().unwrap().kind, ItemKind::Container);
    assert!(matches!(app.check_service_action(), Err(LaunchRejection::AlreadyRunning)));
}

#[test]
fn discovered_services_join_the_rows() {
    let mut app = App::new(cfg());
    app.discover_services(&vec!["db".to_string(), "app".to_string(), "db".to_string()]);
    let services: Vec<&str> = app
        .items()
        .iter()
        .filter(|i| i.kind == ItemKind::Service)
        .map(|i| i.name.as_str())
        .collect();
    assert_eq!(services, vec!["app", "db"]);
}

#[test]
fn windows_line_up_with_their_services() {
    let mut config = bare();
    config.ui.panes.push(service_pane("app"));
    let mut app = App::new(Arc::new(config));
    app.set_tmux_available(true);
    app.terminals_set_windows(vec![TmuxWindow {
        index: 3,
        name: "zsh".to_string(),
        cwd: None,
    }]);
    let rows = app.terminals_rows();
    assert!(matches!(&rows[0], TerminalsRow::Service(name) if name == "app"));
    assert!(rows.iter().any(|r| matches!(r, TerminalsRow::Window(w) if w.index == 3)));
    assert!(matches!(rows.last(), Some(TerminalsRow::NewSentinel)));
}

#[test]
fn ranking_is_by_score_and_stable() {
    let hit = |item_index: usize, score: u32| Match { item_index, score };
    let ranked = rank_matches(&vec![hit(0, 5), hit(1, 9), hit(2, 5), hit(3, 7)]);
    assert_eq!(ranked, vec![hit(1, 9), hit(3, 7), hit(0, 5), hit(2, 5)]);
    let many: Vec<Match> = (0..60).map(|i| hit(i, 1)).collect();
    assert_eq!(rank_matches(&many), many[..MAX_MATCHES].to_vec());
    assert!(rank_matches(&vec![]).is_empty());
}

#[test]
fn the_command_word_is_no_argument() {
    let given = |list: &[&str]| list.iter().map(|s| s.to_string()).collect::<Vec<String>>();
    assert_eq!(drop_command(given(&["test", "-v", "x"])), given(&["-v", "x"]));
    assert!(drop_command(given(&[])).is_empty());
}

#[test]
fn a_form_names_a_new_or_an_existing_branch() {
    let form = |path: &str, branch: &str| NewWorktreeForm {
        path_input: path.to_string(),
        branch_input: branch.to_string(),
        focus: NewFormField::Path,
        error: None,
    };
    let made = resolve_form(&form(" ../feature ", " topic "));
    assert_eq!(made.path, "../feature");
    assert_eq!(made.branch, BranchSpec::CreateOff("topic".to_string()));
    let reused = resolve_form(&form("/src/feature", "  "));
    assert_eq!(reused.branch, BranchSpec::Existing("feature".to_string()));
}

#[test]
fn a_change_puts_the_watcher_run_off() {
    let mut pane = WatcherPane::new("w".into(), "test".into(), vec!["*.rs".into()], 300);
    let seen = |now: u64, had_event: bool| WatcherInput {
        now,
        had_event,
        output: vec![],
        finished: None,
    };
    assert!(!pane.tick(seen(0, true)));
    assert!(!pane.tick(seen(200, true)));
    assert!(!pane.tick(seen(400, false)));
    assert!(pane.tick(seen(500, false)));
    assert!(!pane.tick(seen(600, true)));
    assert!(!pane.tick(seen(2_000, false)));
    assert_eq!(pane.state, WatcherState::Running);
}

#[test]
fn changes_during_a_run_start_no_other() {
    let mut pane = WatcherPane::new("w".to_string(), "test".to_string(), vec![], 300);
    assert!(!pane.tick(tick_at(0, true, None)));
    assert!(pane.tick(tick_at(300, false, None)));
    assert!(!pane.tick(tick_at(400, true, None)));
    assert_eq!(pane.pending_until, None);
    assert!(!pane.tick(tick_at(500, true, Some(RunOutcome::Exited(3)))));
    assert_eq!(pane.pending_until, None);
    for now in [600, 800, 900, 5_000] {
        assert!(!pane.tick(tick_at(now, false, None)));
    }
    assert_eq!(pane.state, WatcherState::Idle);
    assert_eq!(pane.last_exit_code, Some(3));
    assert!(!pane.tick(tick_at(6_000, true, None)));
    assert!(pane.tick(tick_at(6_300, false, None)));
}

#[test]
fn a_window_ends_with_the_clock_at_the_latest() {
    let mut pane = WatcherPane::new("w".to_string(), "test".to_string(), vec![], u64::MAX);
    assert!(!pane.tick(tick_at(5, true, None)));
    assert_eq!(pane.pending_until, Some(u64::MAX));
}

fn printed(text: &str) -> CapturedLine {
    CapturedLine { stream: OutputStream::Stdout, text: text.to_string() }
}

#[test]
fn output_reaches_the_row_that_printed_it() {
    let mut config = bare();
    config.commands.insert("a".to_string(), recipe("true"));
    config.commands.insert("b".to_string(), recipe("true"));
    let mut app = App::new(Arc::new(config)).with_executor();
    app.try_launch_selected().unwrap();
    app.select_last();
    app.try_launch_selected().unwrap();
    app.poll_run(ItemKind::Recipe, "a", vec![printed("one")], None);
    app.poll_run(ItemKind::Recipe, "b", vec![], Some(RunOutcome::Exited(3)));
    app.poll_run(ItemKind::Recipe, "c", vec![printed("lost")], None);
    let a = app.run_for(ItemKind::Recipe, "a").unwrap();
    assert_eq!(a.buffer[0].text, "one");
    assert!(!a.is_done());
    let b = app.run_for(ItemKind::Recipe, "b").unwrap();
    assert_eq!(b.exit_code, Some(3));
    assert!(b.buffer.is_empty());
    assert!(app.run_for(ItemKind::Recipe, "c").is_none());
}

#[test]
fn log_lines_reach_their_service() {
    let mut app = App::new(cfg());
    app.discover_services(&vec!["db".to_string()]);
    app.poll_service("db", vec![printed("ready")], None);
    app.poll_service("nobody", vec![printed("lost")], None);
    assert_eq!(app.services().get("db").unwrap().buffer[0].text, "ready");
    assert!(app.services().get("nobody").is_none());
}

#[test]
fn ticks_reach_their_watcher() {
    let mut app = App::new(cfg());
    let pane = WatcherPane::new("watch:t".into(), "t".into(), vec!["*.rs".into()], 100);
    app.add_watcher("watch:t".to_string(), pane);
    let seen = |now: u64, had_event: bool| WatcherInput {
        now,
        had_event,
        output: vec![],
        finished: None,
    };
    assert!(!app.tick_watcher("watch:t", seen(0, true)));
    assert!(app.tick_watcher("watch:t", seen(100, false)));
    assert!(!app.tick_watcher("nobody", seen(200, true)));
    assert_eq!(app.watchers().get("watch:t").unwrap().state, WatcherState::Running);
}

#[test]
fn every_worktree_has_a_session() {
    let mut config = bare();
    config.project.name = Some("demo".to_string());
    let app = App::new(Arc::new(config));
    assert_eq!(app.terminals().session_name, "scaffl-demo");
    let app = app.with_worktree("feature-x");
    assert_eq!(app.terminals().session_name, "scaffl-demo-feature-x");
    assert_eq!(app.with_worktree("").terminals().session_name, "scaffl-demo");
}
