use croft::config::model::{Backend, Config, Recipe, Run, UiPane};
use croft::textmap::TextMap;
use croft::tui::app::{App, Mode};
use croft::tui::diff::{DiffFile, DiffLine, DiffLineKind, DiffStatus};
use croft::tui::gitdiff::{
    enrich_diff_lines, local_trunks, merge_diff_files, parse_branch, parse_diff_name_status,
    parse_hunk_header, parse_numstat, parse_status_porcelain, parse_tmux_windows, pick_trunk,
    untracked_as_diff,
};
use croft::tui::keys::{handle_event, handle_key_normal, Effect, Key, Scroll};
use croft::tui::modals::{render_palette, render_status, window};
use croft::tui::panes::{
    build_groups, format_duration, render_diff_body, render_top_bar, wrap_words,
};
use croft::tui::scroll::BodyScroll;
use croft::tui::session::{attach_plan, kill_argv, next_step, window_probe, DriveOutcome, DriveStep};
use croft::tui::terminals::{AttachRequest, KillRequest, TmuxWindow};
use croft::tui::ui::{
    collapse_home, preview_lines, render_terminals_info, render_terminals_sidebar, Line,
};
use croft::tui::view::View;
use std::sync::Arc;

fn recipe(run: &str) -> Recipe {
    Recipe {
        desc: None,
        run: Run::Single(run.to_string()),
        service: None,
        tty: false,
        env: TextMap::new(),
        needs: vec![],
        forward_args: false,
        parallel: false,
        profile: TextMap::new(),
    }
}

fn app_with(commands: &[&str]) -> App {
    let mut config = Config::default();
    config.runtime.backend = Backend::NoRuntime;
    for name in commands {
        config.commands.insert(name.to_string(), recipe("true"));
    }
    App::new(Arc::new(config))
}

fn press(app: &mut App, key: Key) -> Effect {
    handle_event(app, key, false)
}

fn text_of(line: &Line) -> String {
    line.spans.iter().map(|s| s.text.as_str()).collect()
}

#[test]
fn q_quits() {
    let mut app = app_with(&["x"]);
    handle_key_normal(&mut app, Key::Char('q'), false);
    assert!(app.should_quit());
}

#[test]
fn ctrl_c_quits() {
    let mut app = app_with(&["x"]);
    handle_event(&mut app, Key::Char('c'), true);
    assert!(app.should_quit());
}

#[test]
fn navigation_moves_selection() {
    let mut app = app_with(&["a", "b", "c"]);
    assert_eq!(app.selected_index(), 0);
    press(&mut app, Key::Char('j'));
    assert_eq!(app.selected_index(), 1);
    press(&mut app, Key::Down);
    assert_eq!(app.selected_index(), 2);
    press(&mut app, Key::End);
    assert_eq!(app.selected_index(), 2);
    press(&mut app, Key::Home);
    assert_eq!(app.selected_index(), 0);
}

#[test]
fn capital_t_switches_to_terminals_view() {
    let mut app = app_with(&["x"]);
    assert_eq!(app.view(), View::ControlCenter);
    press(&mut app, Key::Char('T'));
    assert_eq!(app.view(), View::Terminals);
}

fn lists_worktrees_from(view: View) {
    let mut app = app_with(&["x"]);
    app.switch_view(view);
    let effect = press(&mut app, Key::Char('W'));
    assert_eq!(effect, Effect::ListWorktrees);
    app.open_worktree_switcher(vec![]);
    assert_eq!(app.mode(), Mode::WorktreeSwitcher);
}

#[test]
fn capital_w_works_from_terminals_view() {
    lists_worktrees_from(View::Terminals);
}

#[test]
fn capital_w_works_from_diff_view() {
    lists_worktrees_from(View::Diff);
}

#[test]
fn capital_g_switches_to_diff_view() {
    let mut app = app_with(&["x"]);
    press(&mut app, Key::Char('G'));
    assert_eq!(app.view(), View::Diff);
}

#[test]
fn lowercase_g_does_not_switch_views() {
    let mut app = app_with(&["x"]);
    press(&mut app, Key::Char('g'));
    assert_eq!(app.view(), View::ControlCenter);
}

#[test]
fn capital_c_returns_to_control_center() {
    let mut app = app_with(&["x"]);
    app.switch_view(View::Diff);
    press(&mut app, Key::Char('C'));
    assert_eq!(app.view(), View::ControlCenter);
}

#[test]
fn drive_returns_when_app_quits() {
    let mut app = app_with(&["x"]);
    app.quit();
    assert!(app.should_quit());
    assert!(matches!(next_step(&mut app), DriveStep::Finish(DriveOutcome::Quit)));
}

#[test]
fn unrelated_keys_do_nothing() {
    let mut app = app_with(&["a"]);
    let before = app.selected_index();
    press(&mut app, Key::Char('z'));
    assert_eq!(app.selected_index(), before);
    assert!(!app.should_quit());
}

#[test]
fn colon_opens_palette() {
    let mut app = app_with(&["a"]);
    press(&mut app, Key::Char(':'));
    assert_eq!(app.mode(), Mode::Palette);
}

#[test]
fn slash_opens_palette() {
    let mut app = app_with(&["a"]);
    press(&mut app, Key::Char('/'));
    assert_eq!(app.mode(), Mode::Palette);
}

#[test]
fn ctrl_k_opens_palette() {
    let mut app = app_with(&["a"]);
    handle_event(&mut app, Key::Char('k'), true);
    assert_eq!(app.mode(), Mode::Palette);
}

#[test]
fn ctrl_p_opens_palette() {
    let mut app = app_with(&["a"]);
    handle_event(&mut app, Key::Char('p'), true);
    assert_eq!(app.mode(), Mode::Palette);
}

#[test]
fn esc_in_normal_does_not_quit() {
    let mut app = app_with(&["a"]);
    press(&mut app, Key::Esc);
    assert!(!app.should_quit());
}

#[test]
fn esc_in_palette_closes_it() {
    let mut app = app_with(&["a"]);
    app.open_palette();
    press(&mut app, Key::Esc);
    assert_eq!(app.mode(), Mode::Normal);
}

#[test]
fn typing_in_palette_filters() {
    let mut app = app_with(&["test", "migrate"]);
    app.open_palette();
    press(&mut app, Key::Char('m'));
    let palette = app.palette().unwrap();
    let names: Vec<String> =
        palette.matches().iter().map(|m| app.items()[m.item_index].name.clone()).collect();
    assert!(names.contains(&"migrate".to_string()));
}

#[test]
fn enter_in_palette_moves_selection() {
    let mut app = app_with(&["test", "migrate"]);
    app.open_palette();
    press(&mut app, Key::Enter);
    assert_eq!(app.mode(), Mode::Normal);
    assert_eq!(app.items()[app.selected_index()].name, "migrate");
}

#[test]
fn parse_tmux_windows_handles_typical_output() {
    let input = "0\tzsh\t/home/me/proj\n1\tsvc:app\t/\n2\tvim\t/home/me/proj/src\n";
    let windows = parse_tmux_windows(input);
    assert_eq!(windows.len(), 3);
    assert_eq!(windows[0].index, 0);
    assert_eq!(windows[0].name, "zsh");
    assert_eq!(windows[0].cwd.as_deref(), Some("/home/me/proj"));
    assert_eq!(windows[1].name, "svc:app");
    assert_eq!(windows[1].cwd.as_deref(), Some("/"));
    assert_eq!(windows[2].index, 2);
    assert_eq!(windows[2].cwd.as_deref(), Some("/home/me/proj/src"));
}

#[test]
fn parse_tmux_windows_handles_missing_cwd() {
    let input = "0\tzsh\t\n";
    let windows = parse_tmux_windows(input);
    assert_eq!(windows.len(), 1);
    assert_eq!(windows[0].name, "zsh");
    assert!(windows[0].cwd.is_none());
}

#[test]
fn parse_tmux_windows_skips_malformed_lines() {
    let input = "0\tzsh\t/home/me\nnot a window\n2\tvim\t/home/me/src\n";
    let windows = parse_tmux_windows(input);
    assert_eq!(windows.len(), 2);
    assert_eq!(windows[0].name, "zsh");
    assert_eq!(windows[1].name, "vim");
}

#[test]
fn parse_status_porcelain_classifies_each_line() {
    let input = " M src/main.rs\nA  src/lib.rs\n?? notes.txt\n D Cargo.toml\nR  old.txt -> new.txt\n";
    let files = parse_status_porcelain(input);
    assert_eq!(files.len(), 5);
    assert_eq!(files[0].status, DiffStatus::Modified);
    assert_eq!(files[0].path, "src/main.rs");
    assert_eq!(files[1].status, DiffStatus::Added);
    assert_eq!(files[2].status, DiffStatus::Untracked);
    assert_eq!(files[2].path, "notes.txt");
    assert_eq!(files[3].status, DiffStatus::Deleted);
    assert_eq!(files[4].status, DiffStatus::Renamed);
    assert_eq!(files[4].path, "new.txt");
}

#[test]
fn parse_diff_name_status_basic() {
    let input = "M\tsrc/main.rs\nA\tsrc/lib.rs\nD\tCargo.toml\nR090\told.txt\tnew.txt\n";
    let entries = parse_diff_name_status(input);
    assert_eq!(entries.len(), 4);
    assert_eq!(entries[0].status, DiffStatus::Modified);
    assert_eq!(entries[0].path, "src/main.rs");
    assert_eq!(entries[1].status, DiffStatus::Added);
    assert_eq!(entries[2].status, DiffStatus::Deleted);
    assert_eq!(entries[3].status, DiffStatus::Renamed);
    assert_eq!(entries[3].path, "new.txt");
}

#[test]
fn parse_diff_name_status_skips_blank_and_malformed() {
    let input = "\nM\n\t\nM\tok.rs\n";
    let entries = parse_diff_name_status(input);
    assert_eq!(entries.len(), 1);
    assert_eq!(entries[0].path, "ok.rs");
}

#[test]
fn parse_numstat_text_and_binary() {
    let input = "10\t3\tsrc/main.rs\n0\t5\tCargo.toml\n-\t-\tassets/logo.png\n";
    let entries = parse_numstat(input);
    assert_eq!(entries.len(), 3);
    assert_eq!(entries[0].path, "src/main.rs");
    assert_eq!(entries[0].additions, 10);
    assert_eq!(entries[0].deletions, 3);
    assert!(!entries[0].binary);
    assert_eq!(entries[1].additions, 0);
    assert_eq!(entries[1].deletions, 5);
    assert_eq!(entries[2].path, "assets/logo.png");
    assert!(entries[2].binary);
    assert_eq!(entries[2].additions, 0);
    assert_eq!(entries[2].deletions, 0);
}

#[test]
fn parse_numstat_rename_uses_destination_path() {
    let input = "5\t2\told.txt => new.txt\n";
    let entries = parse_numstat(input);
    assert_eq!(entries.len(), 1);
    assert_eq!(entries[0].path, "new.txt");
    assert_eq!(entries[0].additions, 5);
}

#[test]
fn renames_within_directories_go_by_the_new_path() {
    let path = |line: &str| parse_numstat(line)[0].path.clone();
    let entries = parse_numstat("1\t0\t{old => new}/file\n");
    assert_eq!(entries[0].path, "new/file");
    assert_eq!(entries[0].additions, 1);
    assert_eq!(entries[0].deletions, 0);
    assert_eq!(path("1\t0\tsrc/{a.rs => b.rs}\n"), "src/b.rs");
    assert_eq!(path("1\t0\tsrc/{one => two/three}/x.rs\n"), "src/two/three/x.rs");
    assert_eq!(path("1\t0\tsrc/{ => deep}/x.rs\n"), "src/deep/x.rs");
    assert_eq!(path("1\t0\tsrc/{deep => }/x.rs\n"), "src/x.rs");
    assert_eq!(path("0\t0\tx{1}.txt => y{2}.txt\n"), "y{2}.txt");
    assert_eq!(path("0\t0\t{x}/a.txt\n"), "{x}/a.txt");
}

#[test]
fn the_trunk_is_configured_or_found() {
    let some = |s: &str| Some(s.to_string());
    assert_eq!(local_trunks(), vec!["main", "master", "develop", "trunk"]);
    let none = vec![false, false, false, false];
    assert_eq!(pick_trunk(some("release"), some("origin/main"), &none), some("release"));
    assert_eq!(pick_trunk(None, some("origin/main"), &vec![true]), some("origin/main"));
    assert_eq!(pick_trunk(None, None, &vec![false, true, true, true]), some("master"));
    assert_eq!(pick_trunk(None, None, &vec![false, false, false, true]), some("trunk"));
    assert_eq!(pick_trunk(None, None, &none), None);
}

#[test]
fn parse_hunk_header_basic() {
    assert_eq!(parse_hunk_header("@@ -1,7 +1,9 @@"), Some((1, 1)));
    assert_eq!(parse_hunk_header("@@ -100 +200 @@ fn foo()"), Some((100, 200)));
    assert_eq!(parse_hunk_header("not a hunk"), None);
}

#[test]
fn enrich_diff_lines_tracks_line_numbers_through_hunks() {
    let body = "\
diff --git a/foo.rs b/foo.rs
index abc..def 100644
--- a/foo.rs
+++ b/foo.rs
@@ -1,3 +1,3 @@
-let a = 1;
+let a = 2;
 keep
@@ -10,2 +10,3 @@
 keep10
+inserted
";
    let lines = enrich_diff_lines(body);
    let pick: Vec<(&str, Option<u32>, Option<u32>)> = lines
        .iter()
        .filter(|l| {
            matches!(
                l.kind,
                DiffLineKind::Added | DiffLineKind::Removed | DiffLineKind::Context
            )
        })
        .map(|l| (l.text.as_str(), l.old_lineno, l.new_lineno))
        .collect();
    assert_eq!(
        pick,
        vec![
            ("-let a = 1;", Some(1), None),
            ("+let a = 2;", None, Some(1)),
            (" keep", Some(2), Some(2)),
            (" keep10", Some(10), Some(10)),
            ("+inserted", None, Some(11)),
        ]
    );
}

#[test]
fn merged_files_come_in_the_order_of_their_paths() {
    let files = merge_diff_files(
        "M\tb.rs\nA\ta.rs\n",
        Some("3\t1\tb.rs\n"),
        Some("z.txt\n"),
    );
    let paths: Vec<&str> = files.iter().map(|f| f.path.as_str()).collect();
    assert_eq!(paths, vec!["a.rs", "b.rs", "z.txt"]);
    assert_eq!(files[1].additions, 3);
    assert_eq!(files[2].status, DiffStatus::Untracked);
}

#[test]
fn untracked_files_show_as_added_lines() {
    let lines = untracked_as_diff("n.txt", "one\ntwo\n");
    let added: Vec<(&str, Option<u32>)> = lines
        .iter()
        .filter(|l| l.kind == DiffLineKind::Added)
        .map(|l| (l.text.as_str(), l.new_lineno))
        .collect();
    assert_eq!(added, vec![("+one", Some(1)), ("+two", Some(2))]);
}

#[test]
fn a_detached_head_has_no_branch() {
    assert_eq!(parse_branch("main\n").as_deref(), Some("main"));
    assert_eq!(parse_branch("HEAD\n"), None);
}

#[test]
fn wrap_words_breaks_at_word_boundary() {
    let out = wrap_words("the quick brown fox jumps", 10);
    assert_eq!(out, vec!["the quick", "brown fox", "jumps"]);
}

#[test]
fn wrap_words_oversize_word_keeps_alone() {
    let out = wrap_words("foo supercalifragilistic bar", 8);
    assert_eq!(out, vec!["foo", "supercalifragilistic", "bar"]);
}

#[test]
fn wrap_words_collapses_whitespace() {
    let out = wrap_words("a   b\tc", 10);
    assert_eq!(out, vec!["a b c"]);
}

#[test]
fn wrap_words_empty_input() {
    assert_eq!(wrap_words("", 10), Vec::<String>::new());
    assert_eq!(wrap_words("", 0), Vec::<String>::new());
    assert_eq!(wrap_words("a b", 0), vec!["a b"]);
}

fn rendered_config() -> Config {
    let mut config = Config::default();
    config.project.name = Some("tuitest".to_string());
    let mut up = recipe("docker compose up");
    up.desc = Some("Start".to_string());
    config.commands.insert("up".to_string(), up);
    let mut test = recipe("composer test");
    test.service = Some("app".to_string());
    test.forward_args = true;
    config.commands.insert("test".to_string(), test);
    config.ui.panes.push(UiPane::Service { service: "app".to_string(), key: None });
    config.ui.panes.push(UiPane::Watcher {
        glob: vec!["*.rs".to_string()],
        on_change: "test".to_string(),
        debounce_ms: 300,
        key: None,
    });
    config
}

#[test]
fn renders_without_panic() {
    let app = App::new(Arc::new(rendered_config()));
    assert!(text_of(&render_top_bar(&app)).contains("tuitest"));
    let groups = build_groups(&app);
    assert_eq!(groups.services.unwrap().rows.len(), 1);
    assert_eq!(groups.commands.unwrap().rows.len(), 2);
    assert!(groups.watchers.is_none());
    assert!(!text_of(&render_status(&app)).is_empty());
}

#[test]
fn renders_empty_config() {
    let app = App::new(Arc::new(Config::default()));
    let groups = build_groups(&app);
    assert!(groups.commands.is_none());
    assert!(!text_of(&render_status(&app)).is_empty());
}

#[test]
fn renders_with_palette_open() {
    let mut app = App::new(Arc::new(rendered_config()));
    app.open_palette();
    let palette = app.palette().unwrap();
    let drawn = render_palette(&app, palette, 10);
    let all: String = drawn.lines.iter().map(text_of).collect();
    assert!(all.contains("up"));
    assert!(all.contains("test"));
}

fn zsh() -> TmuxWindow {
    TmuxWindow { index: 0, name: "zsh".to_string(), cwd: None }
}

#[test]
fn terminals_view_renders_a_window_row() {
    let mut app = App::new(Arc::new(rendered_config()));
    app.set_tmux_available(true);
    app.switch_view(View::Terminals);
    app.terminals_set_windows(vec![zsh()]);
    let sidebar = render_terminals_sidebar(&app, None);
    let text: String = sidebar.terminals.rows.iter().map(text_of).collect();
    assert!(text.contains("zsh"), "expected 'zsh' in rendered sidebar, got:\n{text}");
    assert!(text.contains("new shell"), "expected '+ new shell' sentinel, got:\n{text}");
}

#[test]
fn terminals_view_renders_window_alongside_services() {
    let mut config = Config::default();
    config.project.name = Some("tuitest".to_string());
    config.runtime.backend = Backend::NoRuntime;
    config.ui.panes.push(UiPane::Service { service: "app".to_string(), key: None });
    config.ui.panes.push(UiPane::Service { service: "worker".to_string(), key: None });
    let mut app = App::new(Arc::new(config));
    app.set_tmux_available(true);
    app.switch_view(View::Terminals);
    app.terminals_set_windows(vec![zsh()]);
    let sidebar = render_terminals_sidebar(&app, None);
    assert_eq!(sidebar.services.unwrap().rows.len(), 2);
    let text: String = sidebar.terminals.rows.iter().map(text_of).collect();
    assert!(text.contains("zsh"), "expected 'zsh' alongside services, got:\n{text}");
    assert_eq!(sidebar.terminals.selected, None);
    let info = render_terminals_info(&app, 30, None);
    assert_eq!(text_of(&info.lines[0]), "attach into service `app`");
}

#[test]
fn homes_are_shortened_in_paths() {
    assert_eq!(collapse_home("/home/me/proj", Some("/home/me")), "~/proj");
    assert_eq!(collapse_home("/srv/proj", Some("/home/me")), "/srv/proj");
    assert_eq!(collapse_home("/srv/proj", None), "/srv/proj");
}

#[test]
fn the_window_of_a_list_holds_the_selection() {
    for selected in 0..20 {
        let (start, end) = window(selected, 5, 20);
        assert!(start <= selected && selected < end);
        assert!(end - start <= 5);
    }
}

#[test]
fn durations_of_runs_match_floats() {
    let cases: [(u64, u32); 8] = [
        (0, 83_000_000),
        (2, 450_000_000),
        (2, 550_000_000),
        (9, 949_999_999),
        (9, 950_000_000),
        (10, 500_000_000),
        (11, 500_000_000),
        (59, 499_999_999),
    ];
    for (secs, nanos) in cases {
        let f = std::time::Duration::new(secs, nanos).as_secs_f64();
        let want = if f < 10.0 { format!("{f:.1}s") } else { format!("{f:.0}s") };
        assert_eq!(format_duration(secs, nanos), want);
    }
    assert_eq!(format_duration(125, 999_999_999), "2m05s");
    assert_eq!(format_duration(6_000_001, 999_999_999), "100000m01s");
    for tenth in 0..100u64 {
        let secs = tenth / 10;
        let nanos = ((tenth % 10) * 100_000_000 + 50_000_000) as u32;
        let f = std::time::Duration::new(secs, nanos).as_secs_f64();
        assert_eq!(format_duration(secs, nanos), format!("{f:.1}s"));
    }
}

fn request(create_with: Option<&str>) -> AttachRequest {
    AttachRequest {
        session: "scaffl-x".to_string(),
        window: "svc:app".to_string(),
        create_with: create_with.map(str::to_string),
    }
}

#[test]
fn attaching_ends_with_the_session() {
    let plan = attach_plan(&request(Some("sh")), false, false);
    let last = plan.last().unwrap();
    assert!(last.iter().any(|a| a.contains("attach")));
    assert!(last.iter().any(|a| a.contains("scaffl-x")));
    assert!(plan.len() > 1);
    assert!(window_probe(&request(None), false).is_none());
    let kill = kill_argv(&KillRequest { session: "scaffl-x".to_string(), index: 4 });
    assert_eq!(kill, vec!["kill-window", "-t", "scaffl-x:4"]);
}

#[test]
fn steps_of_the_loop_are_taken_once() {
    let mut app = app_with(&["x"]);
    app.queue_service_attach("app").unwrap();
    assert!(matches!(next_step(&mut app), DriveStep::Attach(_)));
    assert!(matches!(next_step(&mut app), DriveStep::Wait));
}

#[test]
fn previews_begin_and_end_with_content() {
    let pane = |rows: &[&str]| rows.iter().map(|r| r.to_string()).collect::<Vec<String>>();
    let shown = |rows: &[&str], max: usize| {
        preview_lines(&pane(rows), max).iter().map(text_of).collect::<Vec<String>>()
    };
    assert_eq!(shown(&["", " ", "$ ls", "", "a.rs", "", ""], 10), pane(&["$ ls", "", "a.rs"]));
    assert_eq!(shown(&["$ ls", "", "a.rs", ""], 2), pane(&["a.rs"]));
    assert_eq!(shown(&["", ""], 10), pane(&["", ""]));
    assert!(shown(&["x"], 0).is_empty());
}

#[test]
fn diff_numbers_count_on_within_a_hunk() {
    let lines = enrich_diff_lines("@@ -7,2 +9,3 @@\n a\n+b\n+c\n d");
    let new: Vec<Option<u32>> = lines.iter().map(|l| l.new_lineno).collect();
    let old: Vec<Option<u32>> = lines.iter().map(|l| l.old_lineno).collect();
    assert_eq!(new, vec![None, Some(9), Some(10), Some(11), Some(12)]);
    assert_eq!(old, vec![None, Some(7), None, None, Some(8)]);
}

/// Twenty lines, with hunk headers at the third, the tenth and the last but one.
fn long_diff() -> Vec<DiffLine> {
    (0..20)
        .map(|i| DiffLine {
            kind: match i {
                3 | 10 | 18 => DiffLineKind::Hunk,
                _ => DiffLineKind::Context,
            },
            text: format!("line {i}"),
            old_lineno: None,
            new_lineno: None,
        })
        .collect()
}

fn moved(start: usize, moves: &[Scroll]) -> usize {
    let mut body = BodyScroll { top: start, chord: false };
    for scroll in moves {
        body.apply(&long_diff(), *scroll, 6);
    }
    body.top
}

#[test]
fn the_body_moves_by_lines_and_half_pages() {
    assert_eq!(BodyScroll::new(20, 6), BodyScroll { top: 14, chord: false });
    assert_eq!(BodyScroll::new(4, 6).top, 0);
    assert_eq!(moved(5, &[Scroll::LineDown]), 6);
    assert_eq!(moved(5, &[Scroll::LineUp]), 4);
    assert_eq!(moved(5, &[Scroll::HalfPageDown]), 8);
    assert_eq!(moved(5, &[Scroll::HalfPageUp]), 2);
    assert_eq!(moved(14, &[Scroll::LineDown]), 14);
    assert_eq!(moved(13, &[Scroll::HalfPageDown]), 14);
    assert_eq!(moved(2, &[Scroll::HalfPageUp]), 0);
    assert_eq!(moved(99, &[Scroll::LineUp]), 13);
    assert_eq!(moved(5, &[Scroll::Top]), 0);
    assert_eq!(moved(5, &[Scroll::Bottom]), 14);
    assert_eq!(moved(5, &[Scroll::LineDown, Scroll::LineUp]), 5);
    assert_eq!(moved(5, &[Scroll::HalfPageDown, Scroll::HalfPageUp]), 5);
    let mut low = BodyScroll { top: 5, chord: false };
    low.apply(&long_diff(), Scroll::HalfPageDown, 1);
    assert_eq!(low.top, 6);
}

#[test]
fn the_body_jumps_between_hunks() {
    assert_eq!(moved(0, &[Scroll::NextHunk]), 3);
    assert_eq!(moved(3, &[Scroll::NextHunk]), 10);
    assert_eq!(moved(10, &[Scroll::NextHunk]), 14);
    assert_eq!(moved(14, &[Scroll::PreviousHunk]), 10);
    assert_eq!(moved(10, &[Scroll::PreviousHunk]), 3);
    assert_eq!(moved(3, &[Scroll::PreviousHunk]), 3);
}

#[test]
fn two_chords_in_a_row_lead_to_the_top() {
    assert_eq!(moved(9, &[Scroll::TopChord]), 9);
    assert_eq!(moved(9, &[Scroll::TopChord, Scroll::TopChord]), 0);
    assert_eq!(moved(9, &[Scroll::TopChord, Scroll::LineDown, Scroll::TopChord]), 10);
    let mut body = BodyScroll { top: 9, chord: false };
    body.apply(&long_diff(), Scroll::TopChord, 6);
    assert!(body.chord);
    body.release();
    assert_eq!(body, BodyScroll { top: 9, chord: false });
}

#[test]
fn the_diff_pane_begins_where_the_body_stands() {
    let mut app = app_with(&["up"]);
    let file = DiffFile {
        path: "a".to_string(),
        status: DiffStatus::Modified,
        additions: 0,
        deletions: 0,
        binary: false,
    };
    app.diff_set_files(vec![file]);
    assert_eq!(text_of(&render_diff_body(&app, None, 6).lines[0]), "loading diff…");
    app.diff_set_cache("a".to_string(), long_diff());
    let tail = render_diff_body(&app, None, 6);
    assert_eq!((tail.lines.len(), text_of(&tail.lines[0])), (6, "line 14".to_string()));
    let from = render_diff_body(&app, Some(3), 6);
    assert_eq!((from.lines.len(), text_of(&from.lines[0])), (17, "line 3".to_string()));
    assert!(render_diff_body(&app, Some(99), 6).lines.is_empty());
}
