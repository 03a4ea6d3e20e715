//! Running the hooks of a stage.
use crate::config::model::copy_strings;
use crate::hooks::config;
use crate::hooks::config::{HookLanguage, HookSpec, PreCommitConfig, Repo, UpstreamHook};
use crate::hooks::error;
use crate::hooks::error::HookError;
use crate::paths;
use crate::paths::join_path;
use crate::regexes;
use crate::regexes::{compile_regex, regex_is_match};
use crate::shell;
use crate::shell::split_words;
use crate::lists;
use vstd::prelude::*;

verus! {

/// How one hook went.
#[derive(Debug, PartialEq, Eq)]
pub struct HookOutcome {
    pub hook_id: String,
    pub native: bool,
    /// Why it was skipped.
    pub skipped: Option<String>,
    pub exit_code: Option<i32>,
}

impl HookOutcome {
    /// Whether the hook lets the commit through: it was skipped, or it succeeded.
    pub fn passed(&self) -> (res: bool)
        ensures
            res == (self.skipped is Some || self.exit_code == Some(0i32)),
    {
        self.skipped.is_some() || matches!(self.exit_code, Some(0))
    }

    /// The outcome of a command that ran.
    pub fn ran(hook_id: &str, exit_code: i32) -> (res: Self)
        ensures
            res.hook_id@ == hook_id@,
            res.native,
            res.skipped is None,
            res.exit_code == Some(exit_code),
    {
        HookOutcome {
            hook_id: hook_id.to_owned(),
            native: true,
            skipped: None,
            exit_code: Some(exit_code),
        }
    }
}

// ---------------------------------------------------------------------------
// Which hooks
// ---------------------------------------------------------------------------
/// The places of those of the first `n` hooks of a repository that run at a stage.
pub open spec fn stage_hooks(
    hooks: Seq<HookSpec>,
    repo: nat,
    stage: Seq<char>,
    defaults: Seq<Seq<char>>,
    n: nat,
) -> Seq<(nat, nat)>
    decreases n,
{
    if n == 0 {
        seq![]
    } else {
        let before = stage_hooks(hooks, repo, stage, defaults, (n - 1) as nat);
        if hooks[n - 1]@.runs_at(stage, defaults) {
            before.push((repo, (n - 1) as nat))
        } else {
            before
        }
    }
}

/// The places of the hooks of the first `n` repositories that run at a stage, in
/// the order in which they are declared.
pub open spec fn due_hooks(
    repos: Seq<Repo>,
    stage: Seq<char>,
    defaults: Seq<Seq<char>>,
    n: nat,
) -> Seq<(nat, nat)>
    decreases n,
{
    if n == 0 {
        seq![]
    } else {
        let hooks = repos[n - 1].hooks@;
        due_hooks(repos, stage, defaults, (n - 1) as nat) + stage_hooks(
            hooks,
            (n - 1) as nat,
            stage,
            defaults,
            hooks.len(),
        )
    }
}

/// Places as numbers.
pub open spec fn places(found: Seq<(usize, usize)>) -> Seq<(nat, nat)> {
    found.map_values(|p: (usize, usize)| (p.0 as nat, p.1 as nat))
}

/// The hooks that run at a stage, as places of repositories and of hooks in them,
/// in the order in which they are declared.
pub fn hooks_for_stage(config: &PreCommitConfig, stage: &str) -> (res: Vec<(usize, usize)>)
    ensures
        places(res@) == due_hooks(
            config.repos@,
            stage@,
            config.default_stages.deep_view(),
            config.repos@.len(),
        ),
{
    let ghost defaults = config.default_stages.deep_view();
    let mut out: Vec<(usize, usize)> = Vec::new();
    let mut r: usize = 0;
    assert(places(out@) =~= due_hooks(config.repos@, stage@, defaults, 0));
    while r < config.repos.len()
        invariant
            r <= config.repos@.len(),
            defaults == config.default_stages.deep_view(),
            places(out@) == due_hooks(config.repos@, stage@, defaults, r as nat),
        decreases config.repos@.len() - r,
    {
        let ghost before = due_hooks(config.repos@, stage@, defaults, r as nat);
        let hooks = &config.repos[r].hooks;
        let mut h: usize = 0;
        assert(places(out@) =~= before + stage_hooks(hooks@, r as nat, stage@, defaults, 0));
        while h < hooks.len()
            invariant
                r < config.repos@.len(),
                h <= hooks@.len(),
                hooks == config.repos@[r as int].hooks,
                defaults == config.default_stages.deep_view(),
                places(out@) == before + stage_hooks(hooks@, r as nat, stage@, defaults, h as nat),
            decreases hooks@.len() - h,
        {
            let ghost sofar = places(out@);
            if hooks[h].applies_to_stage(stage, config.default_stages.as_slice()) {
                out.push((r, h));
                assert(places(out@) =~= sofar.push((r as nat, h as nat)));
                assert(places(out@) =~= before + stage_hooks(
                    hooks@,
                    r as nat,
                    stage@,
                    defaults,
                    (h + 1) as nat,
                ));
            }
            h += 1;
        }
        r += 1;
    }
    out
}

/// Whether a hook is declared for a stage: the stage is one of its own, or, where it
/// names none, the defaults name the stage or name nothing.
pub open spec fn declared_for(hook: HookSpec, stage: Seq<char>, defaults: Seq<Seq<char>>) -> bool {
    let own = hook.stages.deep_view();
    own.contains(stage) || (own.len() == 0 && (defaults.len() == 0 || defaults.contains(stage)))
}

/// Whether one place stands before another: in an earlier repository, or earlier in
/// the same one.
pub open spec fn stands_before(a: (nat, nat), b: (nat, nat)) -> bool {
    a.0 < b.0 || (a.0 == b.0 && a.1 < b.1)
}

proof fn lemma_stage_hooks(
    hooks: Seq<HookSpec>,
    repo: nat,
    stage: Seq<char>,
    defaults: Seq<Seq<char>>,
    n: nat,
)
    requires
        n <= hooks.len(),
    ensures
        ({
            let found = stage_hooks(hooks, repo, stage, defaults, n);
            &&& forall|p: (nat, nat)| #[trigger]
                found.contains(p) <==> p.0 == repo && p.1 < n && declared_for(
                    hooks[p.1 as int],
                    stage,
                    defaults,
                )
            &&& forall|i: int, j: int|
                0 <= i < j < found.len() ==> stands_before(#[trigger] found[i], #[trigger] found[j])
        }),
    decreases n,
{
    if n > 0 {
        let m = (n - 1) as nat;
        lemma_stage_hooks(hooks, repo, stage, defaults, m);
        let before = stage_hooks(hooks, repo, stage, defaults, m);
        let found = stage_hooks(hooks, repo, stage, defaults, n);
        let own = hooks[m as int].stages.deep_view();
        assert(hooks[m as int]@.stages == own);
        assert(hooks[m as int]@.runs_at(stage, defaults) == declared_for(
            hooks[m as int],
            stage,
            defaults,
        )) by {
            if own.contains(stage) {
                assert(own.len() > 0);
            }
        }
        assert forall|i: int| 0 <= i < before.len() implies before.contains(
            #[trigger] before[i],
        ) by {}
        assert forall|p: (nat, nat)| #[trigger] found.contains(p) <==> before.contains(p) || (
        found.len() > before.len() && p == (repo, m)) by {
            if before.contains(p) {
                let i = before.index_of(p);
                assert(found[i] == p);
            }
            if found.len() > before.len() && p == (repo, m) {
                assert(found[before.len() as int] == p);
            }
        }
    }
}

proof fn lemma_due_hooks(repos: Seq<Repo>, stage: Seq<char>, defaults: Seq<Seq<char>>, n: nat)
    requires
        n <= repos.len(),
    ensures
        ({
            let due = due_hooks(repos, stage, defaults, n);
            &&& forall|p: (nat, nat)| #[trigger]
                due.contains(p) <==> p.0 < n && p.1 < repos[p.0 as int].hooks@.len()
                    && declared_for(repos[p.0 as int].hooks@[p.1 as int], stage, defaults)
            &&& forall|i: int, j: int|
                0 <= i < j < due.len() ==> stands_before(#[trigger] due[i], #[trigger] due[j])
        }),
    decreases n,
{
    if n > 0 {
        let m = (n - 1) as nat;
        lemma_due_hooks(repos, stage, defaults, m);
        let hooks = repos[m as int].hooks@;
        lemma_stage_hooks(hooks, m, stage, defaults, hooks.len());
        let before = due_hooks(repos, stage, defaults, m);
        let more = stage_hooks(hooks, m, stage, defaults, hooks.len());
        let due = due_hooks(repos, stage, defaults, n);
        assert(due == before + more);
        assert forall|p: (nat, nat)| #[trigger] due.contains(p) <==> before.contains(p)
            || more.contains(p) by {
            if before.contains(p) {
                assert(due[before.index_of(p)] == p);
            }
            if more.contains(p) {
                assert(due[before.len() + more.index_of(p)] == p);
            }
            if due.contains(p) {
                let i = due.index_of(p);
                if i < before.len() {
                    assert(before[i] == p);
                } else {
                    assert(more[i - before.len()] == p);
                }
            }
        }
        assert forall|i: int, j: int| 0 <= i < j < due.len() implies stands_before(
            #[trigger] due[i],
            #[trigger] due[j],
        ) by {
            if j >= before.len() {
                assert(due[j] == more[j - before.len()]);
                assert(more.contains(due[j]));
                if i < before.len() {
                    assert(due[i] == before[i]);
                    assert(before.contains(due[i]));
                } else {
                    assert(due[i] == more[i - before.len()]);
                }
            } else {
                assert(due[i] == before[i] && due[j] == before[j]);
            }
        }
    }
}

/// At a stage every hook runs that is declared for it, and no other; each runs once,
/// and they run in the order in which they are declared.
pub proof fn law_every_hook_of_a_stage_runs_in_order(config: PreCommitConfig, stage: Seq<char>)
    ensures
        ({
            let defaults = config.default_stages.deep_view();
            let repos = config.repos@;
            let due = due_hooks(repos, stage, defaults, repos.len());
            &&& forall|r: nat, h: nat| #[trigger]
                due.contains((r, h)) <==> r < repos.len() && h < repos[r as int].hooks@.len()
                    && declared_for(repos[r as int].hooks@[h as int], stage, defaults)
            &&& forall|i: int, j: int|
                0 <= i < j < due.len() ==> stands_before(#[trigger] due[i], #[trigger] due[j])
        }),
{
    lemma_due_hooks(config.repos@, stage, config.default_stages.deep_view(), config.repos@.len());
}

/// Where the definition of a hook comes from.
#[derive(Debug, Clone, Copy, PartialEq, Eq, Structural)]
pub enum HookSource {
    /// The configuration itself.
    Local,
    /// A clone of the repository.
    Cached,
}

/// Where the hooks of a repository come from. The ones built into pre-commit are
/// not run.
pub fn hook_source(repo: &Repo) -> (res: Result<HookSource, HookError>)
    ensures
        match res {
            Ok(HookSource::Local) => repo.repo@ == "local"@ && repo.repo@ != "meta"@,
            Ok(HookSource::Cached) => repo.repo@ != "local"@ && repo.repo@ != "meta"@,
            Err(e) => repo.repo@ == "meta"@ && e@ == error::HookFault::MetaRepoNotSupported,
        },
{
    if repo.is_meta() {
        return Err(HookError::MetaRepoNotSupported);
    }
    if repo.is_local() {
        Ok(HookSource::Local)
    } else {
        Ok(HookSource::Cached)
    }
}

/// The hook at place `i` is the first of that id.
pub open spec fn first_with_id(hooks: Seq<UpstreamHook>, id: Seq<char>, i: int) -> bool {
    &&& 0 <= i < hooks.len()
    &&& hooks[i].id@ == id
    &&& forall|k: int| 0 <= k < i ==> (#[trigger] hooks[k]).id@ != id
}

/// Finds the definition of a hook among those that its repository offers.
pub fn find_upstream<'a>(
    hooks: &'a Vec<UpstreamHook>,
    hook: &HookSpec,
    repo_url: &str,
    rev: Option<&str>,
) -> (res: Result<&'a UpstreamHook, HookError>)
    ensures
        match res {
            Ok(h) => exists|i: int| #[trigger]
                first_with_id(hooks@, hook.id@, i) && *h == hooks@[i],
            Err(e) => (forall|k: int|
                0 <= k < hooks@.len() ==> (#[trigger] hooks@[k]).id@ != hook.id@) && e@ == (
            error::HookFault::UpstreamHookMissing {
                repo: repo_url@,
                rev: match rev {
                    Some(r) => r@,
                    None => ""@,
                },
                hook: hook.id@,
            }),
        },
{
    let mut i: usize = 0;
    while i < hooks.len()
        invariant
            i <= hooks@.len(),
            forall|k: int| 0 <= k < i ==> (#[trigger] hooks@[k]).id@ != hook.id@,
        decreases hooks@.len() - i,
    {
        if *hooks[i].id.as_str() == *hook.id.as_str() {
            assert(first_with_id(hooks@, hook.id@, i as int));
            return Ok(&hooks[i]);
        }
        i += 1;
    }
    Err(
        HookError::UpstreamHookMissing {
            repo: repo_url.to_owned(),
            rev: match rev {
                Some(r) => r.to_owned(),
                None => "".to_owned(),
            },
            hook: hook.id.clone(),
        },
    )
}

// ---------------------------------------------------------------------------
// The command
// ---------------------------------------------------------------------------
/// The words that a hook's command line was split into, or why there are none.
pub open spec fn usable_words(
    id: Seq<char>,
    split: Result<Seq<Seq<char>>, Seq<char>>,
) -> Result<Seq<Seq<char>>, error::HookFault> {
    match split {
        Err(message) => Err(error::HookFault::EntryParse { hook: id, message }),
        Ok(words) => if words.len() == 0 {
            Err(error::HookFault::EntryMissing { hook: id })
        } else {
            Ok(words)
        },
    }
}

/// Checks the words that a hook's command line was split into.
pub fn check_words(id: &str, split: Result<Vec<String>, String>) -> (res: Result<
    Vec<String>,
    HookError,
>)
    ensures
        ({
            let want = usable_words(
                id@,
                match split {
                    Ok(words) => Ok(words.deep_view()),
                    Err(message) => Err(message@),
                },
            );
            match res {
                Ok(words) => want == Ok::<Seq<Seq<char>>, error::HookFault>(words.deep_view())
                    && words@.len() > 0,
                Err(e) => want == Err::<Seq<Seq<char>>, error::HookFault>(e@),
            }
        }),
{
    match split {
        Err(message) => Err(HookError::EntryParse { hook: id.to_owned(), message }),
        Ok(words) => {
            assert(words@.len() == words.deep_view().len());
            if words.len() == 0 {
                Err(HookError::EntryMissing { hook: id.to_owned() })
            } else {
                Ok(words)
            }
        },
    }
}

/// The words of a hook's command line, or why there are none.
pub open spec fn entry_words(spec: config::HookModel) -> Result<Seq<Seq<char>>, error::HookFault> {
    match spec.entry {
        None => Err(error::HookFault::EntryMissing { hook: spec.id }),
        Some(line) => usable_words(
            spec.id,
            match shell::shell_words_of(line) {
                Some(words) => Ok(words),
                None => Err("missing closing quote"@),
            },
        ),
    }
}

/// The words of a hook's command line.
pub fn entry_argv(spec: &HookSpec) -> (res: Result<Vec<String>, HookError>)
    ensures
        match res {
            Ok(words) => entry_words(spec@) == Ok::<Seq<Seq<char>>, error::HookFault>(
                words.deep_view(),
            ) && words@.len() > 0,
            Err(e) => entry_words(spec@) == Err::<Seq<Seq<char>>, error::HookFault>(e@),
        },
{
    match &spec.entry {
        None => Err(HookError::EntryMissing { hook: spec.id.clone() }),
        Some(line) => check_words(spec.id.as_str(), split_words(line.as_str())),
    }
}

/// The file that the first word of a script hook may name: it runs on the host
/// and its files stand in the clone.
pub open spec fn candidate(
    spec: config::HookModel,
    script_root: Option<Seq<char>>,
    word: Seq<char>,
) -> Option<Seq<char>> {
    match script_root {
        Some(root) => if spec.language == HookLanguage::Script && spec.service is None {
            Some(paths::joined_path(root, word))
        } else {
            None
        },
        None => None,
    }
}

/// The file inside the clone that a script hook may name.
pub fn script_candidate(spec: &HookSpec, script_root: Option<&str>, word: &str) -> (res: Option<
    String,
>)
    ensures
        res.deep_view() == candidate(spec@, script_root.deep_view(), word@),
{
    match script_root {
        Some(root) => if matches!(spec.language, HookLanguage::Script) && spec.service.is_none() {
            Some(join_path(root, word))
        } else {
            None
        },
        None => None,
    }
}

/// What to do for a hook.
#[derive(Debug, PartialEq, Eq)]
pub enum HookStep {
    Skip(HookOutcome),
    Run(Vec<String>),
}

/// The command of a hook: its words, the first replaced by the script that it
/// names, its arguments, and the files where they are passed.
pub open spec fn command(
    spec: config::HookModel,
    words: Seq<Seq<char>>,
    script: Option<Seq<char>>,
    files: Seq<Seq<char>>,
) -> Seq<Seq<char>> {
    let head = match script {
        Some(path) => words.update(0, path),
        None => words,
    };
    head + spec.args + if spec.pass_filenames {
        files
    } else {
        seq![]
    }
}

/// Decides about a hook, given the words of its command line, the script that the
/// first of them turned out to name, and the staged files that it is for. Without
/// files it is skipped, unless it takes none or always runs.
pub fn hook_step(
    spec: &HookSpec,
    words: Vec<String>,
    script: Option<String>,
    files: Vec<String>,
) -> (res: HookStep)
    requires
        words@.len() > 0,
    ensures
        if spec.pass_filenames && files@.len() == 0 && !spec.always_run {
            res matches HookStep::Skip(o) && o.hook_id@ == spec.id@ && o.native && o.exit_code
                is None && o.skipped.deep_view() == Some("no matching staged files"@)
        } else {
            res matches HookStep::Run(argv) && argv.deep_view() == command(
                spec@,
                words.deep_view(),
                script.deep_view(),
                files.deep_view(),
            )
        },
{
    if spec.pass_filenames && files.len() == 0 && !spec.always_run {
        return HookStep::Skip(
            HookOutcome {
                hook_id: spec.id.clone(),
                native: true,
                skipped: Some("no matching staged files".to_owned()),
                exit_code: None,
            },
        );
    }
    let ghost given = words.deep_view();
    let ghost passed = files.deep_view();
    let ghost named = script.deep_view();
    let mut argv = words;
    if let Some(path) = script {
        argv.set(0, path);
    }
    let ghost head = match named {
        Some(path) => given.update(0, path),
        None => given,
    };
    assert(argv.deep_view() =~= head);
    let mut args = copy_strings(&spec.args);
    let ghost more = args.deep_view();
    argv.append(&mut args);
    assert(argv.deep_view() =~= head + more);
    if spec.pass_filenames {
        let mut rest = files;
        argv.append(&mut rest);
    }
    assert(argv.deep_view() =~= command(spec@, given, named, passed));
    HookStep::Run(argv)
}

// ---------------------------------------------------------------------------
// Files
// ---------------------------------------------------------------------------
/// Those of the first `n` files that are marked.
pub open spec fn marked(files: Seq<Seq<char>>, marks: Seq<bool>, n: nat) -> Seq<Seq<char>>
    decreases n,
{
    if n == 0 {
        seq![]
    } else {
        let before = marked(files, marks, (n - 1) as nat);
        if marks[n - 1] {
            before.push(files[n - 1])
        } else {
            before
        }
    }
}

/// The marked files, in order.
pub fn keep_marked(files: &[String], marks: &Vec<bool>) -> (res: Vec<String>)
    requires
        marks@.len() == files@.len(),
    ensures
        res.deep_view() == marked(files.deep_view(), marks@, files@.len()),
{
    let ghost all = files.deep_view();
    let mut out: Vec<String> = Vec::new();
    let mut i: usize = 0;
    assert(out.deep_view() =~= marked(all, marks@, 0));
    while i < files.len()
        invariant
            i <= files@.len() == marks@.len(),
            all == files.deep_view(),
            out.deep_view() == marked(all, marks@, i as nat),
        decreases files@.len() - i,
    {
        let ghost before = out.deep_view();
        if marks[i] {
            assert(all[i as int] == files@[i as int]@);
            out.push(files[i].clone());
            assert(out.deep_view() =~= before.push(all[i as int]));
        }
        i += 1;
    }
    out
}

/// Why one of two patterns is no regular expression.
pub open spec fn pattern_fault(id: Seq<char>, pattern: Option<Seq<char>>) -> Option<
    error::HookFault,
> {
    match pattern {
        Some(p) => match regexes::regex_error(p) {
            Some(message) => Some(
                error::HookFault::InvalidRegex { hook: id, pattern: p, message },
            ),
            None => None,
        },
        None => None,
    }
}

/// Why the files of a hook cannot be told: `files` is looked at before `exclude`.
pub open spec fn filter_fault(spec: config::HookModel) -> Option<error::HookFault> {
    match pattern_fault(spec.id, spec.files) {
        Some(e) => Some(e),
        None => pattern_fault(spec.id, spec.exclude),
    }
}

/// Whether a hook is for a file: it matches `files`, if given, and does not match
/// `exclude`, if given.
pub open spec fn wants(spec: config::HookModel, file: Seq<char>) -> bool {
    &&& spec.files matches Some(p) ==> regexes::regex_matches(p, file)
    &&& spec.exclude matches Some(p) ==> !regexes::regex_matches(p, file)
}

/// Which files a hook is for.
pub open spec fn wanted(spec: config::HookModel, files: Seq<Seq<char>>) -> Seq<bool> {
    files.map_values(|f: Seq<char>| wants(spec, f))
}

/// Whether a hook is for a file, given whether its `files` and its `exclude` match
/// it, where they are given.
pub fn admits(included: Option<bool>, excluded: Option<bool>) -> (res: bool)
    ensures
        res == (included != Some(false) && excluded != Some(true)),
{
    !matches!(included, Some(false)) && !matches!(excluded, Some(true))
}

fn compile(hook_id: &str, pattern: &Option<String>) -> (res: Result<Option<regex::Regex>, HookError>)
    ensures
        match res {
            Ok(found) => {
                &&& pattern_fault(hook_id@, pattern.deep_view()) is None
                &&& found is Some == pattern is Some
                &&& found is Some ==> regexes::regex_pattern(found->0) == pattern->0@
            },
            Err(e) => pattern_fault(hook_id@, pattern.deep_view()) == Some(e@),
        },
{
    match pattern {
        Some(p) => match compile_regex(p.as_str()) {
            Ok(re) => Ok(Some(re)),
            Err(message) => Err(
                HookError::InvalidRegex {
                    hook: hook_id.to_owned(),
                    pattern: p.clone(),
                    message,
                },
            ),
        },
        None => Ok(None),
    }
}

/// The staged files that a hook is for, in order.
pub fn filter_files(hook: &HookSpec, staged: &[String]) -> (res: Result<Vec<String>, HookError>)
    ensures
        match res {
            Ok(kept) => filter_fault(hook@) is None && kept.deep_view() == marked(
                staged.deep_view(),
                wanted(hook@, staged.deep_view()),
                staged@.len(),
            ),
            Err(e) => filter_fault(hook@) == Some(e@),
        },
{
    let include_re = match compile(hook.id.as_str(), &hook.files) {
        Ok(re) => re,
        Err(e) => return Err(e),
    };
    let exclude_re = match compile(hook.id.as_str(), &hook.exclude) {
        Ok(re) => re,
        Err(e) => return Err(e),
    };
    let ghost all = staged.deep_view();
    let ghost want = wanted(hook@, all);
    let mut marks: Vec<bool> = Vec::new();
    let mut i: usize = 0;
    while i < staged.len()
        invariant
            i <= staged@.len(),
            all == staged.deep_view(),
            want == wanted(hook@, all),
            include_re is Some == hook.files is Some,
            include_re is Some ==> regexes::regex_pattern(include_re->0) == hook.files->0@,
            exclude_re is Some == hook.exclude is Some,
            exclude_re is Some ==> regexes::regex_pattern(exclude_re->0) == hook.exclude->0@,
            marks@ == want.take(i as int),
        decreases staged@.len() - i,
    {
        assert(all[i as int] == staged@[i as int]@);
        let included = match &include_re {
            Some(re) => Some(regex_is_match(re, staged[i].as_str())),
            None => None,
        };
        let excluded = match &exclude_re {
            Some(re) => Some(regex_is_match(re, staged[i].as_str())),
            None => None,
        };
        marks.push(admits(included, excluded));
        assert(marks@ =~= want.take(i + 1));
        i += 1;
    }
    assert(marks@ =~= want);
    Ok(keep_marked(staged, &marks))
}

/// The files that a hook gets are the staged ones, in order, that match its `files`,
/// where it has one, and do not match its `exclude`, where it has one.
pub proof fn law_hooks_get_the_files_they_ask_for(hook: HookSpec, staged: Seq<Seq<char>>)
    ensures
        lists::selects(
            marked(staged, wanted(hook@, staged), staged.len()),
            |i: int| staged[i],
            |i: int|
                (hook.files is None || regexes::regex_matches(hook.files->0@, staged[i])) && (
                hook.exclude is None || !regexes::regex_matches(hook.exclude->0@, staged[i])),
            staged.len(),
        ),
{
    lemma_marked(hook, staged, staged.len());
}

proof fn lemma_marked(hook: HookSpec, staged: Seq<Seq<char>>, n: nat)
    requires
        n <= staged.len(),
    ensures
        lists::selects(
            marked(staged, wanted(hook@, staged), n),
            |i: int| staged[i],
            |i: int|
                (hook.files is None || regexes::regex_matches(hook.files->0@, staged[i])) && (
                hook.exclude is None || !regexes::regex_matches(hook.exclude->0@, staged[i])),
            n,
        ),
    decreases n,
{
    let value = |i: int| staged[i];
    let keep = |i: int|
        (hook.files is None || regexes::regex_matches(hook.files->0@, staged[i])) && (hook.exclude
            is None || !regexes::regex_matches(hook.exclude->0@, staged[i]));
    if n == 0 {
        lists::lemma_selects_none(value, keep);
    } else {
        let m = (n - 1) as nat;
        lemma_marked(hook, staged, m);
        lists::lemma_selects_next(marked(staged, wanted(hook@, staged), m), value, keep, m);
    }
}

/// The marked files are kept in order, and no other.
pub proof fn law_marked_files_are_kept(files: Seq<Seq<char>>, marks: Seq<bool>)
    requires
        marks.len() == files.len(),
    ensures
        lists::selects(
            marked(files, marks, files.len()),
            |i: int| files[i],
            |i: int| marks[i],
            files.len(),
        ),
{
    lemma_kept(files, marks, files.len());
}

proof fn lemma_kept(files: Seq<Seq<char>>, marks: Seq<bool>, n: nat)
    requires
        n <= files.len(),
        marks.len() == files.len(),
    ensures
        lists::selects(marked(files, marks, n), |i: int| files[i], |i: int| marks[i], n),
    decreases n,
{
    let value = |i: int| files[i];
    let keep = |i: int| marks[i];
    if n == 0 {
        lists::lemma_selects_none(value, keep);
    } else {
        let m = (n - 1) as nat;
        lemma_kept(files, marks, m);
        lists::lemma_selects_next(marked(files, marks, m), value, keep, m);
    }
}

/// A hook whose patterns are no regular expressions is faulted, the one for its files
/// before the one for what it leaves out, and no other hook is.
pub proof fn law_bad_patterns_are_faulted(hook: HookSpec)
    ensures
        ({
            let fault = filter_fault(hook@);
            let bad = |p: Option<String>| p is Some && regexes::regex_error(p->0@) is Some;
            let said = |p: Option<String>|
                error::HookFault::InvalidRegex {
                    hook: hook.id@,
                    pattern: p->0@,
                    message: regexes::regex_error(p->0@)->0,
                };
            &&& fault is Some <==> bad(hook.files) || bad(hook.exclude)
            &&& bad(hook.files) ==> fault->0 == said(hook.files)
            &&& !bad(hook.files) && bad(hook.exclude) ==> fault->0 == said(hook.exclude)
        }),
{
}

/// The command of a hook is its command line with the script in place of the first
/// word, where there is one, then every argument, then, where file names are passed,
/// every file.
pub proof fn law_hooks_are_run_with_their_arguments(
    hook: HookSpec,
    words: Seq<Seq<char>>,
    script: Option<Seq<char>>,
    files: Seq<Seq<char>>,
)
    requires
        words.len() > 0,
    ensures
        ({
            let argv = command(hook@, words, script, files);
            let args = hook.args.deep_view();
            let n = words.len() + args.len();
            &&& argv.len() == n + if hook.pass_filenames {
                files.len()
            } else {
                0
            }
            &&& argv[0] == match script {
                Some(path) => path,
                None => words[0],
            }
            &&& forall|i: int| 1 <= i < words.len() ==> #[trigger] argv[i] == words[i]
            &&& argv.subrange(words.len() as int, n as int) == args
            &&& hook.pass_filenames ==> argv.skip(n as int) == files
        }),
{
    let argv = command(hook@, words, script, files);
    let args = hook.args.deep_view();
    let n = words.len() + args.len();
    assert(argv.subrange(words.len() as int, n as int) =~= args);
    if hook.pass_filenames {
        assert(argv.skip(n as int) =~= files);
    }
}

/// Only a script hook that runs on the host is looked for in a clone, and its first
/// word is taken from there.
pub proof fn law_scripts_stand_in_the_clone(
    hook: HookSpec,
    root: Option<Seq<char>>,
    word: Seq<char>,
)
    ensures
        candidate(hook@, root, word) is Some <==> root is Some && hook.language
            == HookLanguage::Script && hook.service is None,
        candidate(hook@, root, word) is Some ==> candidate(hook@, root, word)->0
            == paths::joined_path(root->0, word),
{
}

/// A hook has a command exactly where it has a command line that splits into words,
/// and then it is these words.
pub proof fn law_commands_are_the_words_of_the_line(hook: HookSpec)
    ensures
        ({
            let words = if hook.entry is Some {
                shell::shell_words_of(hook.entry->0@)
            } else {
                None
            };
            &&& entry_words(hook@) is Ok <==> words is Some && words->0.len() > 0
            &&& entry_words(hook@) is Ok ==> entry_words(hook@)->Ok_0 == words->0
            &&& hook.entry is Some && words is None ==> entry_words(hook@)->Err_0 == (
            error::HookFault::EntryParse { hook: hook.id@, message: "missing closing quote"@ })
            &&& hook.entry is None || (words is Some && words->0.len() == 0) ==> entry_words(
                hook@,
            )->Err_0 == (error::HookFault::EntryMissing { hook: hook.id@ })
        }),
{
}

/// A hook is the first one upstream that has its id.
pub proof fn law_the_first_hook_of_an_id_counts(
    hooks: Seq<UpstreamHook>,
    id: Seq<char>,
    i: int,
    k: int,
)
    requires
        first_with_id(hooks, id, i),
        0 <= k < hooks.len(),
        hooks[k].id@ == id,
    ensures
        0 <= i <= k,
        hooks[i].id@ == id,
{
}

} // verus!
