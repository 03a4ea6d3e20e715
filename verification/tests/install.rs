use croft::config::agents::SourceSpec;
use croft::config::env::{Env, RuntimeError, WORKTREE_OFFSET};
use croft::config::model::{Config, EnvSpec};
use croft::hooks::config::Repo;
use croft::install::renderer::{
    format_duration, Frame, Paint, Piece, Renderer, Status, StepOutcome, RING_LINES, TAIL_LINES,
};
use croft::install::runner::{
    after_step, begin_run, build_command, captured_command, classify, decide_start_index,
    default_install_stages, earlier_outcome, exit_code, fetch_step, find_step, list_lines,
    outcome_for_renderer, plan_for, plan_lines, project_label, record_named, record_outcome,
    resolve_cwd, stages_line, starting_state, stop_code, FetchStep, InlineStep, InstallArgs, RunNext, ScriptStep, Step,
    StepSource,
};
use croft::install::state::{state_path, InstallState, StepStatus, SCHEMA_VERSION};
use croft::textmap::TextMap;

fn names(list: &[&str]) -> Vec<String> {
    list.iter().map(|s| s.to_string()).collect()
}

#[test]
fn duration_under_ten_seconds_is_decimal() {
    assert_eq!(format_duration(0, 83_000_000), "0.1s");
    assert_eq!(format_duration(2, 500_000_000), "2.5s");
}

#[test]
fn duration_above_ten_seconds_is_integer() {
    assert_eq!(format_duration(12, 0), "12s");
    assert_eq!(format_duration(59, 0), "59s");
}

#[test]
fn duration_above_minute_uses_mm_ss() {
    assert_eq!(format_duration(60, 0), "1m00s");
    assert_eq!(format_duration(125, 0), "2m05s");
    assert_eq!(format_duration(6_000_000, 0), "100000m00s");
    assert_eq!(format_duration(u64::MAX, 999_999_999), "307445734561825860m16s");
}

#[test]
fn durations_of_steps_match_floats() {
    for (secs, nanos) in [(60u64, 500_000_000u32), (61, 500_000_000), (119, 499_999_999), (119, 600_000_000), (4_000_000, 1)] {
        let total = std::time::Duration::new(secs, nanos).as_secs_f64();
        let want = format!("{:.0}m{:02.0}s", (total / 60.0).floor(), total % 60.0);
        assert_eq!(format_duration(secs, nanos), want);
    }
}

#[test]
fn classify_zero_exit_is_ok() {
    let o = classify(false, 0, 1000, 0);
    assert_eq!(o.status, StepStatus::Done);
}

#[test]
fn classify_nonzero_required_is_failed() {
    let o = classify(false, 1, 1000, 0);
    assert_eq!(o.status, StepStatus::Failed);
    assert_eq!(stop_code(&o), Some(1));
    assert_eq!(outcome_for_renderer(&o), StepOutcome::Failed);
}

#[test]
fn classify_nonzero_optional_is_skipped() {
    let o = classify(true, 1, 1000, 0);
    assert_eq!(o.status, StepStatus::Skipped);
    assert_eq!(stop_code(&o), None);
    assert_eq!(outcome_for_renderer(&o), StepOutcome::Skipped);
}

#[test]
fn fresh_state_marks_every_step_pending() {
    let state = InstallState::fresh(names(&["a", "b"]));
    assert_eq!(state.version, SCHEMA_VERSION);
    assert_eq!(state.steps.len(), 2);
    assert!(state.steps.iter().all(|s| s.status == StepStatus::Pending));
}

#[test]
fn save_and_load_roundtrip() {
    let mut state = InstallState::fresh(names(&["a", "b"]));
    state.steps[0].status = StepStatus::Done;
    state.steps[0].exit_code = Some(0);
    state.steps[0].duration_ms = Some(42);
    let started = state.started_at_ms;
    let loaded = InstallState::load("/p", Some(Ok(state))).unwrap().unwrap();
    assert_eq!(loaded.started_at_ms, started);
    assert_eq!(loaded.steps[0].status, StepStatus::Done);
    assert_eq!(loaded.steps[0].duration_ms, Some(42));
    assert_eq!(loaded.steps[1].name, "b");
}

#[test]
fn load_returns_none_when_file_absent() {
    assert!(InstallState::load("/p", None).unwrap().is_none());
}

#[test]
fn first_unresolved_skips_ok_and_skipped() {
    let mut state = InstallState::fresh(names(&["a", "b", "c", "d"]));
    state.steps[0].status = StepStatus::Done;
    state.steps[1].status = StepStatus::Skipped;
    state.steps[2].status = StepStatus::Failed;
    state.steps[3].status = StepStatus::Pending;
    assert_eq!(state.first_unresolved(), Some(2));
}

#[test]
fn first_unresolved_returns_none_when_all_resolved() {
    let mut state = InstallState::fresh(names(&["a", "b"]));
    state.steps[0].status = StepStatus::Done;
    state.steps[1].status = StepStatus::Skipped;
    assert!(state.first_unresolved().is_none());
}

#[test]
fn version_mismatch_errors() {
    let mut state = InstallState::fresh(vec![]);
    state.version = 999;
    let err = InstallState::load("/p", Some(Ok(state))).unwrap_err();
    assert!(err.contains("version 999"));
    assert!(state_path("/p").starts_with("/p/"));
}

fn args() -> InstallArgs {
    InstallArgs {
        step: None,
        resume: false,
        restart: false,
        dry_run: false,
        list: false,
        update_hooks: false,
        assume_fresh: false,
    }
}

fn step(name: &str, source: StepSource) -> Step {
    Step {
        name: name.to_string(),
        label: format!("run {name}"),
        source,
        optional: false,
        interactive: false,
    }
}

fn plan() -> Vec<Step> {
    let mut seed = step(
        "seed",
        StepSource::Inline(InlineStep {
            run: "make seed".to_string(),
            cwd: None,
            env: vec![("A".to_string(), "1".to_string())],
        }),
    );
    seed.optional = true;
    seed.interactive = true;
    vec![
        step("deps", StepSource::Recipe("deps".to_string())),
        seed,
        step("hooks", StepSource::InstallHooks),
    ]
}

#[test]
fn a_stopped_run_resumes_where_it_failed() {
    let plan = plan();
    let (mut state, first) = begin_run(&plan, None, &args()).unwrap();
    assert_eq!(first, RunNext::Step(0));
    let next = after_step(&plan, &mut state, 0, &classify(false, 0, 5, 1), 9, false);
    assert_eq!(next, RunNext::Step(1));
    let next = after_step(&plan, &mut state, 1, &classify(true, 3, 5, 1), 9, false);
    assert_eq!(next, RunNext::Step(2));
    let next = after_step(&plan, &mut state, 2, &classify(false, 7, 5, 1), 9, false);
    assert_eq!(next, RunNext::Stop(7));
    assert_eq!(state.steps[2].ended_at_ms, Some(9));
    let mut resume = args();
    resume.resume = true;
    let (mut state, again) = begin_run(&plan, Some(state), &resume).unwrap();
    assert_eq!(again, RunNext::Step(2));
    let next = after_step(&plan, &mut state, 2, &classify(false, 0, 5, 1), 9, true);
    assert_eq!(next, RunNext::Finished);
    let (state, over) = begin_run(&plan, Some(state), &resume).unwrap();
    assert_eq!(over, RunNext::Finished);
    assert_eq!(decide_start_index(plan.len(), &state, &args()), 0);
    assert_eq!(earlier_outcome(&state.steps[1]), Some(StepOutcome::Skipped));
}

#[test]
fn resuming_needs_a_saved_state() {
    let plan = plan();
    let mut resume = args();
    resume.resume = true;
    let refused = begin_run(&plan, None, &resume).unwrap_err();
    assert_eq!(
        refused,
        "no saved install state to resume. Run `ampelos install` to start afresh."
    );
    let other = InstallState::fresh(names(&["x"]));
    assert_eq!(begin_run(&plan, Some(other), &resume).unwrap().1, RunNext::Step(0));
    resume.restart = true;
    assert_eq!(begin_run(&plan, None, &resume).unwrap().1, RunNext::Step(0));
    resume.restart = false;
    resume.step = Some("deps".to_string());
    assert!(begin_run(&plan, None, &resume).is_ok());
    assert!(begin_run(&plan, None, &args()).is_ok());
}

#[test]
fn resuming_passes_over_steps_that_were_run_by_name() {
    let plan = plan();
    let mut resume = args();
    resume.resume = true;
    let mut saved = InstallState::fresh(names(&["deps", "seed", "hooks"]));
    record_named(&mut saved, "deps", &classify(false, 1, 5, 1), 2);
    record_named(&mut saved, "seed", &classify(true, 1, 5, 1), 2);
    let (mut state, first) = begin_run(&plan, Some(saved), &resume).unwrap();
    assert_eq!(first, RunNext::Step(0));
    let done = classify(false, 0, 5, 1);
    assert_eq!(after_step(&plan, &mut state, 0, &done, 9, true), RunNext::Step(2));
    assert_eq!(after_step(&plan, &mut state, 0, &done, 9, false), RunNext::Step(1));
    record_named(&mut state, "hooks", &done, 9);
    assert_eq!(after_step(&plan, &mut state, 0, &done, 9, true), RunNext::Finished);
}

#[test]
fn a_project_is_set_up_by_its_scripts_first() {
    let mut scripts = TextMap::new();
    scripts.insert("20-db".to_string(), "/p/.keel/install/20-db".to_string());
    scripts.insert("10-deps".to_string(), "/p/.keel/install/10-deps".to_string());
    let mut config = Config::default();
    let bare = plan_for(&config, &scripts);
    let order: Vec<&str> = bare.iter().map(|s| s.name.as_str()).collect();
    assert_eq!(order, vec!["10-deps", "20-db", "git-hooks"]);
    assert!(matches!(
        &bare[0].source,
        StepSource::Script(s) if s.path == "/p/.keel/install/10-deps" && s.env.is_empty()
    ));
    assert_eq!(bare[2].source, StepSource::InstallHooks);
    config.agents.sources.push(SourceSpec {
        name: "a".to_string(),
        repo: "r".to_string(),
        rev: "v".to_string(),
        subpath: None,
        manifest_path: None,
        overrides: vec![],
    });
    let with_agents = plan_for(&config, &scripts);
    assert_eq!(with_agents[2].name, "agents");
    assert_eq!(with_agents[2].source, StepSource::ApplyAgents);
    config.agents.install_with_setup = false;
    assert_eq!(plan_for(&config, &scripts).len(), 3);
}

#[test]
fn a_state_of_another_plan_is_dropped() {
    let plan = plan();
    let mut old = InstallState::fresh(names(&["x"]));
    old.steps[0].status = StepStatus::Done;
    let state = starting_state(Some(old), &plan);
    assert_eq!(state.steps.len(), 3);
    assert_eq!(state.steps[0].name, "deps");
}

#[test]
fn outcomes_are_recorded_by_place_and_by_name() {
    let mut state = InstallState::fresh(names(&["a", "b"]));
    record_named(&mut state, "b", &classify(false, 0, 5, 1), 2);
    assert_eq!(state.steps[1].status, StepStatus::Done);
    record_outcome(&mut state, 9, &classify(false, 0, 5, 1), 2);
    assert_eq!(state.steps[0].status, StepStatus::Pending);
}

#[test]
fn unknown_steps_are_refused() {
    assert_eq!(find_step(&plan(), "seed"), Ok(1));
    assert_eq!(
        find_step(&plan(), "nope").unwrap_err(),
        "no install step named `nope`. Run `ampelos install --list` to see the plan."
    );
}

#[test]
fn plans_are_listed() {
    assert_eq!(
        plan_lines(&plan()),
        vec![
            "Plan:",
            "   1. run deps (recipe)",
            "   2. run seed (inline) [optional, interactive]",
            "   3. run hooks (builtin)",
        ]
    );
    let mut state = InstallState::fresh(names(&["deps", "seed"]));
    state.steps[0].status = StepStatus::Done;
    let listed = list_lines(&plan(), &Some(state));
    assert_eq!(listed[0], "Install plan:");
    assert_eq!(listed[1], format!("  {:>2}. {:30} {}", 1, "run deps", "ok"));
    assert_eq!(listed[2], format!("  {:>2}. {:30} {}", 2, "run seed", "pending"));
    assert_eq!(listed[3], format!("  {:>2}. {:30} {}", 3, "run hooks", "not run"));
}

#[test]
fn steps_run_with_their_environment() {
    let base = vec![("A".to_string(), "0".to_string())];
    let plan = plan();
    let captured = captured_command(&plan[1].source, "/p", &base).unwrap();
    assert_eq!(captured.program, "sh");
    assert_eq!(captured.args, vec!["-c", "make seed"]);
    let keys: Vec<&str> = captured.env.iter().map(|(k, _)| k.as_str()).collect();
    assert_eq!(keys, vec!["A", "A", "AMPELOS_PROJECT_DIR"]);
    assert_eq!(captured.env[1].1, "1");
    let script = StepSource::Script(ScriptStep {
        path: "/p/bin/setup".to_string(),
        cwd: None,
        env: vec![],
    });
    let shown = build_command(&script, "/p", &base).unwrap();
    assert_eq!(shown.env[0], ("AMPELOS_SCRIPT_DIR".to_string(), "/p/bin".to_string()));
    assert_eq!(shown.env[1].1, "0");
    assert!(captured_command(&plan[2].source, "/p", &base).is_none());
    assert_eq!(
        build_command(&plan[0].source, "/p", &base).unwrap_err(),
        "step kind cannot run interactively"
    );
    assert_eq!(exit_code(None), -1);
    assert_eq!(exit_code(Some(3)), 3);
}

#[test]
fn steps_run_in_their_directory() {
    assert_eq!(resolve_cwd(None, "/p"), "/p");
    assert_eq!(resolve_cwd(Some("sub"), "/p"), "/p/sub");
    assert_eq!(resolve_cwd(Some("/elsewhere"), "/p"), "/elsewhere");
    let inline = |cwd: Option<&str>| {
        StepSource::Inline(InlineStep {
            run: "make".to_string(),
            cwd: cwd.map(str::to_string),
            env: vec![],
        })
    };
    let script = StepSource::Script(ScriptStep {
        path: "/p/bin/setup".to_string(),
        cwd: Some("web".to_string()),
        env: vec![],
    });
    assert_eq!(captured_command(&inline(None), "/p", &vec![]).unwrap().cwd, "/p");
    assert_eq!(captured_command(&inline(Some("web")), "/p", &vec![]).unwrap().cwd, "/p/web");
    assert_eq!(captured_command(&script, "/p", &vec![]).unwrap().cwd, "/p/web");
    assert_eq!(build_command(&inline(Some("/tmp")), "/p", &vec![]).unwrap().cwd, "/tmp");
    assert_eq!(build_command(&script, "/p", &vec![]).unwrap().cwd, "/p/web");
}

fn spec_of() -> EnvSpec {
    EnvSpec {
        value: None,
        default: None,
        from_command: None,
        required: false,
        base: None,
        offset: None,
    }
}

fn given(name: &str, spec: &EnvSpec, printed: Option<&str>) -> Option<String> {
    let mut process = TextMap::new();
    process.insert("HOME".to_string(), "/root".to_string());
    process.insert("STEP".to_string(), "x1".to_string());
    let mut env = Env::new(process, 7);
    env.resolve(name, spec, printed).unwrap();
    env.given.iter().skip(1).map(|(_, v)| v.clone()).next()
}

#[test]
fn variables_get_the_first_value_there_is() {
    let text = |s: &str| Some(s.to_string());
    let mut spec = spec_of();
    assert_eq!(given("PORT", &spec, None), None);
    assert_eq!(given("HOME", &spec, None), text("/root"));
    spec.default = text("80");
    assert_eq!(given("PORT", &spec, Some("9")), text("80"));
    spec.from_command = text("id -u");
    assert_eq!(given("PORT", &spec, Some(" 1000\n")), text("1000"));
    assert_eq!(given("PORT", &spec, None), text("80"));
    assert_eq!(given("HOME", &spec, Some("9")), text("/root"));
    spec.base = text("8080");
    assert_eq!(given("HOME", &spec, Some("9")), text("8080"));
    spec.offset = text("KEEL_WORKTREE_OFFSET");
    assert_eq!(given("HOME", &spec, Some("9")), text("8087"));
    spec.offset = text("NONE");
    assert_eq!(given("HOME", &spec, None), text("8080"));
    spec.offset = text("STEP");
    assert_eq!(given("HOME", &spec, None), text("8080"));
    spec.offset = text("KEEL_WORKTREE_OFFSET");
    spec.base = text("9223372036854775807");
    assert_eq!(given("HOME", &spec, None), text("9223372036854775807"));
    spec.base = text("-9");
    assert_eq!(given("HOME", &spec, None), text("-2"));
    spec.value = text("fixed");
    assert_eq!(given("HOME", &spec, Some("9")), text("fixed"));
}

#[test]
fn a_variable_that_is_required_must_have_a_value() {
    let mut env = Env::new(TextMap::new(), 3);
    let mut spec = spec_of();
    spec.required = true;
    let fault = env.resolve("TOKEN", &spec, None).unwrap_err();
    assert_eq!(fault, RuntimeError::RequiredEnvMissing("TOKEN".to_string()));
    assert_eq!(fault.message(), "required environment variable `TOKEN` has no value");
    assert_eq!(env.given, vec![(WORKTREE_OFFSET.to_string(), "3".to_string())]);
    spec.from_command = Some("make token".to_string());
    assert_eq!(env.wanted_command("TOKEN", &spec).as_deref(), Some("make token"));
    env.resolve("TOKEN", &spec, Some("t\n")).unwrap();
    assert_eq!(env.given[1], ("TOKEN".to_string(), "t".to_string()));
    assert_eq!(env.wanted_command("TOKEN", &spec), None);
    env.resolve("TOKEN", &spec, Some("other")).unwrap();
    assert_eq!(env.given[2].1, "t");
}

#[test]
fn hook_repositories_are_fetched_or_passed_over() {
    let mut repo = Repo { repo: "https://x/y".to_string(), rev: None, hooks: vec![] };
    assert_eq!(
        fetch_step(&repo),
        FetchStep::Fetch("fetching https://x/y @ <unpinned>".to_string())
    );
    repo.rev = Some("v2".to_string());
    assert_eq!(fetch_step(&repo), FetchStep::Fetch("fetching https://x/y @ v2".to_string()));
    repo.repo = "meta".to_string();
    assert_eq!(
        fetch_step(&repo),
        FetchStep::Unsupported(
            "skipping `repo: meta` (0 hooks) — not supported by ampelos".to_string()
        )
    );
    repo.repo = "local".to_string();
    assert_eq!(fetch_step(&repo), FetchStep::Local);
}

#[test]
fn stages_follow_the_worktree_dotenv() {
    let mut config = Config::default();
    assert_eq!(default_install_stages(&config), vec!["pre-commit"]);
    config.worktrees.dotenv = Some(".env".to_string());
    let stages = default_install_stages(&config);
    assert_eq!(stages, vec!["pre-commit", "post-checkout", "post-merge"]);
    assert_eq!(
        stages_line(&names(&stages)),
        "installing shims for: pre-commit, post-checkout, post-merge"
    );
    assert_eq!(project_label(&config), "ampelos");
}

fn text_of(line: &[Piece]) -> String {
    line.iter().map(|p| p.text.as_str()).collect()
}

fn drawn(frame: &Frame) -> Vec<String> {
    frame.lines.iter().map(|l| text_of(l)).collect()
}

#[test]
fn the_list_is_redrawn_in_place() {
    let (mut list, first) = Renderer::new("demo", names(&["one", "two"]));
    assert_eq!(first.move_up, 0);
    assert_eq!(drawn(&first), vec!["Installing keel steps for demo", "", "  ○ one", "  ○ two"]);
    let begun = list.begin(0);
    assert_eq!(begun.move_up, 2);
    assert_eq!(drawn(&begun), vec!["  ⠋ one", "  ○ two"]);
    for i in 0..5 {
        list.append_tail(&format!("line {i}"));
    }
    let ticked = list.tick().unwrap();
    assert_eq!(
        drawn(&ticked),
        vec!["  ⠙ one", "      line 2", "      line 3", "      line 4", "  ○ two"]
    );
    assert_eq!(list.rows[0].tail.len(), TAIL_LINES);
    let ended = list.end(0, StepOutcome::Failed, "0.1s".to_string());
    assert_eq!(ended.move_up, 5);
    assert_eq!(drawn(&ended), vec!["  ✗ one  0.1s", "  ○ two"]);
    assert_eq!(ended.lines[0][1].paint, Paint::RedBold);
    let summary: Vec<String> =
        list.print_failure_summary("one").iter().map(|l| text_of(l)).collect();
    assert_eq!(summary[1], "Output from `one`:");
    assert_eq!(summary[2], "  line 0");
}

#[test]
fn captured_lines_are_capped() {
    let (mut list, _) = Renderer::new("demo", names(&["one"]));
    let _ = list.begin(0);
    for i in 0..(RING_LINES + 4) {
        list.append_tail(&format!("{i}"));
    }
    assert_eq!(list.ring.len(), RING_LINES);
    assert_eq!(list.ring[0], "4");
}

#[test]
fn interactive_steps_have_the_terminal() {
    let (mut list, _) = Renderer::new("demo", names(&["ask"]));
    let paused = list.pause_for_interactive(0);
    assert_eq!(paused.move_up, 1);
    assert_eq!(drawn(&paused), vec!["  ▶ ask", "  (passing terminal to step)", ""]);
    list.append_tail("ignored");
    assert!(list.ring.is_empty());
    assert!(list.tick().is_none());
    let back = list.resume_after_interactive();
    assert_eq!(back.move_up, 0);
    assert_eq!(drawn(&back), vec!["", "  ⠋ ask"]);
    assert_eq!(list.rows[0].status, Status::Running);
    let summary: Vec<String> =
        list.print_failure_summary("ask").iter().map(|l| text_of(l)).collect();
    assert_eq!(summary, vec!["", "Output from `ask`:", "  (no output captured)"]);
}
