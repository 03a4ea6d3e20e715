//! The text of a starter configuration.
//!
//! The runtime and the development container belong to the first detector that
//! claims them, environment files are listed once each, and suggested commands
//! are commented out, those of one name together.
use crate::init::detector;
use crate::init::detector::{CommandFragment, Finding, Fragment, RunSpec};
use crate::text;
use crate::text::{concat, concat3};
use crate::lists;
use vstd::prelude::*;

verus! {

// ---------------------------------------------------------------------------
// Values
// ---------------------------------------------------------------------------
/// `s` inside quotes, with backslashes and quotes escaped.
pub open spec fn escaped(s: Seq<char>) -> Seq<char> {
    text::replaced(text::replaced(s, '\\', "\\\\"@), '"', "\\\""@)
}

fn escape(s: &str) -> (res: String)
    ensures
        res@ == escaped(s@),
{
    let a = text::replace_char(s, '\\', "\\\\");
    text::replace_char(a.as_str(), '"', "\\\"")
}

/// `s` as a string value.
pub open spec fn quote(s: Seq<char>) -> Seq<char> {
    "\""@ + escaped(s) + "\""@
}

fn quoted(s: &str) -> (res: String)
    ensures
        res@ == quote(s@),
{
    let inner = escape(s);
    concat3("\"", inner.as_str(), "\"")
}

/// Strings as a list value, without its brackets.
pub open spec fn quote_list(items: Seq<Seq<char>>) -> Seq<char> {
    text::joined(items.map_values(|s: Seq<char>| quote(s)), ", "@)
}

fn quoted_list(items: &Vec<String>) -> (res: String)
    ensures
        res@ == quote_list(items.deep_view()),
{
    let ghost want = items.deep_view().map_values(|s: Seq<char>| quote(s));
    let mut parts: Vec<String> = Vec::new();
    let mut i: usize = 0;
    assert(parts.deep_view() =~= want.take(0));
    while i < items.len()
        invariant
            i <= items@.len(),
            want == items.deep_view().map_values(|s: Seq<char>| quote(s)),
            parts.deep_view() == want.take(i as int),
        decreases items@.len() - i,
    {
        let ghost before = parts.deep_view();
        assert(items.deep_view()[i as int] == items@[i as int]@);
        parts.push(quoted(items[i].as_str()));
        assert(parts.deep_view() =~= before.push(want[i as int]));
        assert(before.push(want[i as int]) =~= want.take(i + 1));
        i += 1;
    }
    assert(want.take(i as int) =~= want);
    text::join(&parts, ", ")
}

/// A flag as a value.
pub open spec fn flag(b: bool) -> Seq<char> {
    if b {
        "true"@
    } else {
        "false"@
    }
}

fn flag_text(b: bool) -> (res: &'static str)
    ensures
        res@ == flag(b),
{
    if b {
        "true"
    } else {
        "false"
    }
}

// ---------------------------------------------------------------------------
// Fragments
// ---------------------------------------------------------------------------
/// The fragments of the first `n` findings, in order.
pub open spec fn fragments_of(findings: Seq<detector::FindingModel>, n: nat) -> Seq<
    detector::FragmentModel,
>
    decreases n,
{
    if n == 0 {
        seq![]
    } else {
        fragments_of(findings, (n - 1) as nat) + findings[n - 1].fragments
    }
}

/// The places of fragments: which finding, and which fragment of it.
pub open spec fn fragment_at(findings: Seq<Finding>, place: (usize, usize)) -> Fragment {
    findings[place.0 as int].fragments@[place.1 as int]
}

/// Every fragment in order, with its place.
fn all_places(findings: &Vec<Finding>) -> (res: Vec<(usize, usize)>)
    ensures
        res@.len() == fragments_of(findings.deep_view(), findings@.len()).len(),
        forall|i: int|
            0 <= i < res@.len() ==> {
                &&& (#[trigger] res@[i]).0 < findings@.len()
                &&& res@[i].1 < findings@[res@[i].0 as int].fragments@.len()
                &&& fragment_at(findings@, res@[i]).deep_view() == fragments_of(
                    findings.deep_view(),
                    findings@.len(),
                )[i]
            },
{
    let ghost all = findings.deep_view();
    let mut out: Vec<(usize, usize)> = Vec::new();
    let mut f: usize = 0;
    while f < findings.len()
        invariant
            f <= findings@.len(),
            all == findings.deep_view(),
            out@.len() == fragments_of(all, f as nat).len(),
            forall|i: int|
                0 <= i < out@.len() ==> {
                    &&& (#[trigger] out@[i]).0 < findings@.len()
                    &&& out@[i].1 < findings@[out@[i].0 as int].fragments@.len()
                    &&& fragment_at(findings@, out@[i]).deep_view() == fragments_of(
                        all,
                        f as nat,
                    )[i]
                },
        decreases findings@.len() - f,
    {
        let ghost before = fragments_of(all, f as nat);
        let ghost here = all[f as int].fragments;
        assert(all[f as int] == findings@[f as int].deep_view());
        let mut k: usize = 0;
        while k < findings[f].fragments.len()
            invariant
                f < findings@.len(),
                k <= findings@[f as int].fragments@.len(),
                here == findings@[f as int].fragments.deep_view(),
                out@.len() == before.len() + k,
                forall|i: int|
                    0 <= i < out@.len() ==> {
                        &&& (#[trigger] out@[i]).0 < findings@.len()
                        &&& out@[i].1 < findings@[out@[i].0 as int].fragments@.len()
                        &&& fragment_at(findings@, out@[i]).deep_view() == (before + here)[i]
                    },
            decreases findings@[f as int].fragments@.len() - k,
        {
            out.push((f, k));
            assert(here[k as int] == findings@[f as int].fragments@[k as int].deep_view());
            k += 1;
        }
        f += 1;
    }
    out
}

// ---------------------------------------------------------------------------
// Sections
// ---------------------------------------------------------------------------
/// The first of the first `n` fragments that is a runtime.
pub open spec fn first_runtime(fragments: Seq<detector::FragmentModel>, n: nat) -> Option<
    detector::FragmentModel,
>
    decreases n,
{
    if n == 0 {
        None
    } else {
        match first_runtime(fragments, (n - 1) as nat) {
            Some(r) => Some(r),
            None => if fragments[n - 1] is Runtime {
                Some(fragments[n - 1])
            } else {
                None
            },
        }
    }
}

/// The `runtime` section.
pub open spec fn runtime_text(fragments: Seq<detector::FragmentModel>) -> Seq<char> {
    match first_runtime(fragments, fragments.len()) {
        Some(
            detector::FragmentModel::Runtime {
                backend,
                default_service,
                compose_passthrough,
                service_passthrough,
            },
        ) => "[runtime]\nbackend = \""@ + backend + "\"\n"@ + (match default_service {
            Some(s) => "default_service = \""@ + escaped(s) + "\"\n"@,
            None => "# default_service = \"app\"\n"@,
        }) + "compose_passthrough = "@ + flag(compose_passthrough) + "\nservice_passthrough = "@
            + flag(service_passthrough) + "\n\n"@,
        _ => "[runtime]\nbackend = \"none\"\n\n"@,
    }
}

fn render_runtime(out: &mut String, findings: &Vec<Finding>, places: &Vec<(usize, usize)>)
    requires
        placed(findings@, findings.deep_view(), places@),
    ensures
        final(out)@ == old(out)@ + runtime_text(
            fragments_of(findings.deep_view(), findings@.len()),
        ),
{
    let ghost all = fragments_of(findings.deep_view(), findings@.len());
    let ghost start = out@;
    let mut i: usize = 0;
    while i < places.len()
        invariant
            i <= places@.len(),
            placed(findings@, findings.deep_view(), places@),
            all == fragments_of(findings.deep_view(), findings@.len()),
            start == out@,
            start == old(out)@,
            first_runtime(all, i as nat) is None,
        decreases places@.len() - i,
    {
        let (f, k) = places[i];
        assert(fragment_at(findings@, places@[i as int]).deep_view() == all[i as int]);
        match &findings[f].fragments[k] {
            Fragment::Runtime {
                backend,
                default_service,
                compose_passthrough,
                service_passthrough,
            } => {
                proof {
                    lemma_first_runtime(all, (i + 1) as nat, all.len());
                }
                let mut section = concat3("[runtime]\nbackend = \"", *backend, "\"\n");
                match default_service {
                    Some(s) => {
                        let e = escape(s.as_str());
                        let line = concat3("default_service = \"", e.as_str(), "\"\n");
                        section.append(line.as_str());
                    },
                    None => section.append("# default_service = \"app\"\n"),
                }
                section.append("compose_passthrough = ");
                section.append(flag_text(*compose_passthrough));
                section.append("\nservice_passthrough = ");
                section.append(flag_text(*service_passthrough));
                section.append("\n\n");
                assert(section@ == runtime_text(all));
                out.append(section.as_str());
                return ;
            },
            _ => {},
        }
        i += 1;
    }
    out.append("[runtime]\nbackend = \"none\"\n\n");
}

/// Whether the places name the fragments of the findings in order.
pub open spec fn placed(
    findings: Seq<Finding>,
    models: Seq<detector::FindingModel>,
    places: Seq<(usize, usize)>,
) -> bool {
    let all = fragments_of(models, models.len());
    &&& models.len() == findings.len()
    &&& places.len() == all.len()
    &&& forall|i: int|
        0 <= i < places.len() ==> {
            &&& (#[trigger] places[i]).0 < findings.len()
            &&& places[i].1 < findings[places[i].0 as int].fragments@.len()
            &&& fragment_at(findings, places[i]).deep_view() == all[i]
        }
}

proof fn lemma_first_runtime(fragments: Seq<detector::FragmentModel>, n: nat, m: nat)
    requires
        n <= m,
        first_runtime(fragments, n) is Some,
    ensures
        first_runtime(fragments, m) == first_runtime(fragments, n),
    decreases m,
{
    if n < m {
        lemma_first_runtime(fragments, n, (m - 1) as nat);
    }
}

/// The first of the first `n` fragments that is a development container.
pub open spec fn first_devcontainer(fragments: Seq<detector::FragmentModel>, n: nat) -> Option<
    Seq<char>,
>
    decreases n,
{
    if n == 0 {
        None
    } else {
        match first_devcontainer(fragments, (n - 1) as nat) {
            Some(p) => Some(p),
            None => match fragments[n - 1] {
                detector::FragmentModel::Devcontainer { path } => Some(path),
                _ => None,
            },
        }
    }
}

proof fn lemma_first_devcontainer(fragments: Seq<detector::FragmentModel>, n: nat, m: nat)
    requires
        n <= m,
        first_devcontainer(fragments, n) is Some,
    ensures
        first_devcontainer(fragments, m) == first_devcontainer(fragments, n),
    decreases m,
{
    if n < m {
        lemma_first_devcontainer(fragments, n, (m - 1) as nat);
    }
}

/// The `devcontainer` section, where there is one.
pub open spec fn devcontainer_text(fragments: Seq<detector::FragmentModel>) -> Seq<char> {
    match first_devcontainer(fragments, fragments.len()) {
        Some(path) => "[devcontainer]\nenabled = true\npath = \""@ + escaped(path) + "\"\n\n"@,
        None => ""@,
    }
}

fn render_devcontainer(out: &mut String, findings: &Vec<Finding>, places: &Vec<(usize, usize)>)
    requires
        placed(findings@, findings.deep_view(), places@),
    ensures
        final(out)@ == old(out)@ + devcontainer_text(
            fragments_of(findings.deep_view(), findings@.len()),
        ),
{
    let ghost all = fragments_of(findings.deep_view(), findings@.len());
    let ghost start = out@;
    let mut i: usize = 0;
    while i < places.len()
        invariant
            i <= places@.len(),
            placed(findings@, findings.deep_view(), places@),
            all == fragments_of(findings.deep_view(), findings@.len()),
            start == out@,
            start == old(out)@,
            first_devcontainer(all, i as nat) is None,
        decreases places@.len() - i,
    {
        let (f, k) = places[i];
        assert(fragment_at(findings@, places@[i as int]).deep_view() == all[i as int]);
        match &findings[f].fragments[k] {
            Fragment::Devcontainer { path } => {
                proof {
                    lemma_first_devcontainer(all, (i + 1) as nat, all.len());
                }
                let e = escape(path.as_str());
                let section = concat3(
                    "[devcontainer]\nenabled = true\npath = \"",
                    e.as_str(),
                    "\"\n\n",
                );
                out.append(section.as_str());
                return ;
            },
            _ => {},
        }
        i += 1;
    }
    proof {
        reveal_strlit("");
        assert(out@ =~= start + ""@);
    }
}

/// The environment files among the first `n` fragments, each once.
pub open spec fn env_list(fragments: Seq<detector::FragmentModel>, n: nat) -> Seq<Seq<char>>
    decreases n,
{
    if n == 0 {
        seq![]
    } else {
        let before = env_list(fragments, (n - 1) as nat);
        match fragments[n - 1] {
            detector::FragmentModel::EnvFile(p) => if before.contains(p) {
                before
            } else {
                before.push(p)
            },
            _ => before,
        }
    }
}

/// The `env_files` section, where there is one.
pub open spec fn env_text(fragments: Seq<detector::FragmentModel>) -> Seq<char> {
    let files = env_list(fragments, fragments.len());
    if files.len() == 0 {
        ""@
    } else {
        "[env_files]\nfiles = ["@ + quote_list(files) + "]\n\n"@
    }
}

fn render_env_files(out: &mut String, findings: &Vec<Finding>, places: &Vec<(usize, usize)>)
    requires
        placed(findings@, findings.deep_view(), places@),
    ensures
        final(out)@ == old(out)@ + env_text(fragments_of(findings.deep_view(), findings@.len())),
{
    let ghost all = fragments_of(findings.deep_view(), findings@.len());
    let ghost start = out@;
    let mut files: Vec<String> = Vec::new();
    let mut i: usize = 0;
    assert(files.deep_view() =~= env_list(all, 0));
    while i < places.len()
        invariant
            i <= places@.len(),
            placed(findings@, findings.deep_view(), places@),
            all == fragments_of(findings.deep_view(), findings@.len()),
            files.deep_view() == env_list(all, i as nat),
        decreases places@.len() - i,
    {
        let (f, k) = places[i];
        let ghost before = files.deep_view();
        assert(fragment_at(findings@, places@[i as int]).deep_view() == all[i as int]);
        match &findings[f].fragments[k] {
            Fragment::EnvFile(path) => {
                if !text::is_listed(&files, path.as_str()) {
                    files.push(path.clone());
                    assert(files.deep_view() =~= before.push(path@));
                }
            },
            _ => {},
        }
        i += 1;
    }
    assert(files@.len() == files.deep_view().len());
    if files.len() > 0 {
        let list = quoted_list(&files);
        let section = concat3("[env_files]\nfiles = [", list.as_str(), "]\n\n");
        out.append(section.as_str());
    } else {
        proof {
            reveal_strlit("");
            assert(out@ =~= start + ""@);
        }
    }
}

// ---------------------------------------------------------------------------
// Commands
// ---------------------------------------------------------------------------
/// What a command runs, as a value.
pub open spec fn run_value(run: detector::StepsModel) -> Seq<char> {
    match run {
        detector::StepsModel::Single(s) => quote(s),
        detector::StepsModel::Steps(steps) => "["@ + quote_list(steps) + "]"@,
    }
}

fn format_run(run: &RunSpec) -> (res: String)
    ensures
        res@ == run_value(run.deep_view()),
{
    match run {
        RunSpec::Single(s) => quoted(s.as_str()),
        RunSpec::Steps(steps) => {
            let list = quoted_list(steps);
            concat3("[", list.as_str(), "]")
        },
    }
}

/// The width of the longest key of a command.
pub open spec fn key_width(c: detector::CommandModel) -> nat {
    if c.forward_args is Some {
        12
    } else if c.needs.len() > 0 {
        5
    } else {
        4
    }
}

/// A commented key and its value.
pub open spec fn kv(key: Seq<char>, value: Seq<char>, width: nat) -> Seq<char> {
    "# "@ + text::padded_right(key, width) + " = "@ + value + "\n"@
}

fn emit_kv(out: &mut String, key: &str, value: &str, width: usize)
    ensures
        final(out)@ == old(out)@ + kv(key@, value@, width as nat),
{
    let ghost start = out@;
    let padded = text::pad_right(key, width);
    let head = concat3("# ", padded.as_str(), " = ");
    let line = concat3(head.as_str(), value, "\n");
    out.append(line.as_str());
    assert(out@ =~= start + kv(key@, value@, width as nat));
}

/// A key that is given, or nothing.
pub open spec fn optional_kv(key: Seq<char>, value: Option<Seq<char>>, width: nat) -> Seq<char> {
    match value {
        Some(v) => kv(key, v, width),
        None => ""@,
    }
}

/// The flag of a command, if it is given.
pub open spec fn flag_value(b: Option<bool>) -> Option<Seq<char>> {
    match b {
        Some(x) => Some(flag(x)),
        None => None,
    }
}

/// A suggested command, commented out.
pub open spec fn command_text(c: detector::CommandModel) -> Seq<char> {
    let w = key_width(c);
    "# [command."@ + c.name + "]\n"@ + kv("desc"@, quote(c.desc), w) + kv(
        "run"@,
        run_value(c.run),
        w,
    ) + optional_kv(
        "in"@,
        match c.in_service {
            Some(s) => Some(quote(s)),
            None => None,
        },
        w,
    ) + optional_kv("tty"@, flag_value(c.tty), w) + optional_kv(
        "forward_args"@,
        flag_value(c.forward_args),
        w,
    ) + optional_kv(
        "needs"@,
        if c.needs.len() > 0 {
            Some("["@ + quote_list(c.needs) + "]"@)
        } else {
            None
        },
        w,
    )
}

fn emit_optional(out: &mut String, key: &str, value: Option<String>, width: usize)
    ensures
        final(out)@ == old(out)@ + optional_kv(key@, value.deep_view(), width as nat),
{
    let ghost start = out@;
    match value {
        Some(v) => emit_kv(out, key, v.as_str(), width),
        None => {
            proof {
                reveal_strlit("");
                assert(out@ =~= start + ""@);
            }
        },
    }
}

fn command_lines(c: &CommandFragment) -> (res: String)
    ensures
        res@ == command_text(c.deep_view()),
{
    assert(c.needs@.len() == c.needs.deep_view().len());
    let width: usize = if c.forward_args.is_some() {
        12
    } else if c.needs.len() > 0 {
        5
    } else {
        4
    };
    let mut out = concat3("# [command.", c.name.as_str(), "]\n");
    let desc = quoted(c.desc.as_str());
    emit_kv(&mut out, "desc", desc.as_str(), width);
    let run = format_run(&c.run);
    emit_kv(&mut out, "run", run.as_str(), width);
    let service = match &c.in_service {
        Some(s) => Some(quoted(s.as_str())),
        None => None,
    };
    emit_optional(&mut out, "in", service, width);
    let tty = match c.tty {
        Some(b) => Some(flag_text(b).to_owned()),
        None => None,
    };
    emit_optional(&mut out, "tty", tty, width);
    let forward = match c.forward_args {
        Some(b) => Some(flag_text(b).to_owned()),
        None => None,
    };
    emit_optional(&mut out, "forward_args", forward, width);
    let needs = if c.needs.len() > 0 {
        let list = quoted_list(&c.needs);
        Some(concat3("[", list.as_str(), "]"))
    } else {
        None
    };
    emit_optional(&mut out, "needs", needs, width);
    out
}

/// The commands of the first `n` findings, each with its ecosystem.
pub open spec fn commands_of(findings: Seq<detector::FindingModel>, n: nat) -> Seq<
    (detector::CommandModel, Seq<char>),
>
    decreases n,
{
    if n == 0 {
        seq![]
    } else {
        let f = findings[n - 1];
        commands_of(findings, (n - 1) as nat) + commands_in(
            f.fragments,
            f.ecosystem,
            f.fragments.len(),
        )
    }
}

/// The commands among the first `n` fragments of one ecosystem.
pub open spec fn commands_in(
    fragments: Seq<detector::FragmentModel>,
    ecosystem: Seq<char>,
    n: nat,
) -> Seq<(detector::CommandModel, Seq<char>)>
    decreases n,
{
    if n == 0 {
        seq![]
    } else {
        let before = commands_in(fragments, ecosystem, (n - 1) as nat);
        match fragments[n - 1] {
            detector::FragmentModel::Command(c) => before.push((c, ecosystem)),
            _ => before,
        }
    }
}

/// The names of the first `n` commands, each once, in the order in which they
/// first occur.
pub open spec fn names_of(commands: Seq<(detector::CommandModel, Seq<char>)>, n: nat) -> Seq<
    Seq<char>,
>
    decreases n,
{
    if n == 0 {
        seq![]
    } else {
        let before = names_of(commands, (n - 1) as nat);
        let name = commands[n - 1].0.name;
        if before.contains(name) {
            before
        } else {
            before.push(name)
        }
    }
}

/// The texts of those of the first `n` commands that have that name.
pub open spec fn texts_named(
    commands: Seq<(detector::CommandModel, Seq<char>)>,
    name: Seq<char>,
    n: nat,
) -> Seq<Seq<char>>
    decreases n,
{
    if n == 0 {
        seq![]
    } else {
        let before = texts_named(commands, name, (n - 1) as nat);
        if commands[n - 1].0.name == name {
            before.push(command_text(commands[n - 1].0))
        } else {
            before
        }
    }
}

/// The ecosystems of those of the first `n` commands that have that name.
pub open spec fn ecosystems_named(
    commands: Seq<(detector::CommandModel, Seq<char>)>,
    name: Seq<char>,
    n: nat,
) -> Seq<Seq<char>>
    decreases n,
{
    if n == 0 {
        seq![]
    } else {
        let before = ecosystems_named(commands, name, (n - 1) as nat);
        if commands[n - 1].0.name == name {
            before.push(commands[n - 1].1)
        } else {
            before
        }
    }
}

/// The heading over several commands of one name.
pub open spec fn heading(name: Seq<char>, ecosystems: Seq<char>) -> Seq<char> {
    "# Multiple ecosystems suggest `"@ + name + "` ("@ + ecosystems + "). Uncomment ONE:\n"@
}

/// The commands of one name: where there are several, under a heading that says
/// so.
pub open spec fn group_text(
    commands: Seq<(detector::CommandModel, Seq<char>)>,
    name: Seq<char>,
) -> Seq<char> {
    let texts = texts_named(commands, name, commands.len());
    (if texts.len() > 1 {
        heading(name, text::joined(ecosystems_named(commands, name, commands.len()), ", "@))
    } else {
        ""@
    }) + text::joined(texts, "\n"@) + "\n"@
}

/// The groups of the first `n` names.
pub open spec fn groups_text(
    commands: Seq<(detector::CommandModel, Seq<char>)>,
    names: Seq<Seq<char>>,
    n: nat,
) -> Seq<char>
    decreases n,
{
    if n == 0 {
        seq![]
    } else {
        groups_text(commands, names, (n - 1) as nat) + group_text(commands, names[n - 1])
    }
}

/// The suggested commands.
pub open spec fn commands_text(commands: Seq<(detector::CommandModel, Seq<char>)>) -> Seq<char> {
    let names = names_of(commands, commands.len());
    if names.len() == 0 {
        ""@
    } else {
        "# Detected commands (uncomment to enable).\n\n"@ + groups_text(
            commands,
            names,
            names.len(),
        )
    }
}

/// The text of the configuration.
pub open spec fn config_text(
    project_name: Seq<char>,
    findings: Seq<detector::FindingModel>,
) -> Seq<char> {
    let fragments = fragments_of(findings, findings.len());
    "# ampelos configuration. See AGENTS.md / README.md for guidance.\n# Auto-detected suggestions below are commented — uncomment what you want.\n\n"@
        + "[project]\nname = \""@ + escaped(project_name) + "\"\n\n"@ + runtime_text(fragments)
        + devcontainer_text(fragments) + env_text(fragments) + commands_text(
        commands_of(findings, findings.len()),
    )
}

/// Whether the places name the commands of the findings in order.
pub open spec fn commands_placed(
    findings: Seq<Finding>,
    commands: Seq<(detector::CommandModel, Seq<char>)>,
    places: Seq<(usize, usize)>,
) -> bool {
    &&& places.len() == commands.len()
    &&& forall|i: int| 0 <= i < places.len() ==> command_at(findings, commands, places, i)
}

/// Whether place `i` names command `i`.
pub open spec fn command_at(
    findings: Seq<Finding>,
    commands: Seq<(detector::CommandModel, Seq<char>)>,
    places: Seq<(usize, usize)>,
    i: int,
) -> bool {
    let (f, k) = places[i];
    &&& f < findings.len()
    &&& k < findings[f as int].fragments@.len()
    &&& findings[f as int].fragments@[k as int] matches Fragment::Command(c)
    &&& c.deep_view() == commands[i].0
    &&& findings[f as int].ecosystem@ == commands[i].1
}

fn command_places(findings: &Vec<Finding>) -> (res: Vec<(usize, usize)>)
    ensures
        commands_placed(
            findings@,
            commands_of(findings.deep_view(), findings@.len()),
            res@,
        ),
{
    let ghost all = findings.deep_view();
    let mut out: Vec<(usize, usize)> = Vec::new();
    let mut f: usize = 0;
    while f < findings.len()
        invariant
            f <= findings@.len(),
            all == findings.deep_view(),
            commands_placed(findings@, commands_of(all, f as nat), out@),
        decreases findings@.len() - f,
    {
        let ghost before = commands_of(all, f as nat);
        let ghost here = all[f as int].fragments;
        let ghost eco = all[f as int].ecosystem;
        assert(all[f as int] == findings@[f as int].deep_view());
        assert(before + commands_in(here, eco, 0) =~= before);
        let mut k: usize = 0;
        while k < findings[f].fragments.len()
            invariant
                f < findings@.len(),
                k <= findings@[f as int].fragments@.len(),
                here == findings@[f as int].fragments.deep_view(),
                eco == findings@[f as int].ecosystem@,
                commands_placed(findings@, before + commands_in(here, eco, k as nat), out@),
            decreases findings@[f as int].fragments@.len() - k,
        {
            assert(here[k as int] == findings@[f as int].fragments@[k as int].deep_view());
            let ghost sofar = before + commands_in(here, eco, k as nat);
            let ghost was = out@;
            match &findings[f].fragments[k] {
                Fragment::Command(c) => {
                    out.push((f, k));
                    proof {
                        let now = before + commands_in(here, eco, (k + 1) as nat);
                        assert(now =~= sofar.push((c.deep_view(), eco)));
                        assert forall|i: int| 0 <= i < out@.len() implies command_at(
                            findings@,
                            now,
                            out@,
                            i,
                        ) by {
                            if i < was.len() {
                                assert(command_at(findings@, sofar, was, i));
                            }
                        }
                    }
                },
                _ => {},
            }
            k += 1;
        }
        f += 1;
    }
    out
}

fn command_of<'a>(findings: &'a Vec<Finding>, place: (usize, usize)) -> (res: Option<
    &'a CommandFragment,
>)
    requires
        place.0 < findings@.len(),
        place.1 < findings@[place.0 as int].fragments@.len(),
    ensures
        match findings@[place.0 as int].fragments@[place.1 as int] {
            Fragment::Command(c) => res is Some && *res->0 == c,
            _ => res is None,
        },
{
    match &findings[place.0].fragments[place.1] {
        Fragment::Command(c) => Some(c),
        _ => None,
    }
}

/// The commands of one name, as they are put into the text.
struct Group {
    texts: Vec<String>,
    ecosystems: Vec<String>,
}

fn collect_group(findings: &Vec<Finding>, places: &Vec<(usize, usize)>, name: &str) -> (res: Group)
    requires
        commands_placed(
            findings@,
            commands_of(findings.deep_view(), findings@.len()),
            places@,
        ),
    ensures
        ({
            let commands = commands_of(findings.deep_view(), findings@.len());
            &&& res.texts.deep_view() == texts_named(commands, name@, commands.len())
            &&& res.ecosystems.deep_view() == ecosystems_named(commands, name@, commands.len())
        }),
{
    let ghost commands = commands_of(findings.deep_view(), findings@.len());
    let mut texts: Vec<String> = Vec::new();
    let mut ecosystems: Vec<String> = Vec::new();
    let mut i: usize = 0;
    assert(texts.deep_view() =~= texts_named(commands, name@, 0));
    assert(ecosystems.deep_view() =~= ecosystems_named(commands, name@, 0));
    while i < places.len()
        invariant
            i <= places@.len(),
            commands == commands_of(findings.deep_view(), findings@.len()),
            commands_placed(findings@, commands, places@),
            texts.deep_view() == texts_named(commands, name@, i as nat),
            ecosystems.deep_view() == ecosystems_named(commands, name@, i as nat),
        decreases places@.len() - i,
    {
        let ghost t = texts.deep_view();
        let ghost e = ecosystems.deep_view();
        assert(command_at(findings@, commands, places@, i as int));
        if let Some(c) = command_of(findings, places[i]) {
            if *c.name.as_str() == *name {
                texts.push(command_lines(c));
                ecosystems.push(findings[places[i].0].ecosystem.to_owned());
                assert(texts.deep_view() =~= t.push(command_text(commands[i as int].0)));
                assert(ecosystems.deep_view() =~= e.push(commands[i as int].1));
            }
        }
        i += 1;
    }
    Group { texts, ecosystems }
}

fn collect_names(findings: &Vec<Finding>, places: &Vec<(usize, usize)>) -> (res: Vec<String>)
    requires
        commands_placed(
            findings@,
            commands_of(findings.deep_view(), findings@.len()),
            places@,
        ),
    ensures
        ({
            let commands = commands_of(findings.deep_view(), findings@.len());
            res.deep_view() == names_of(commands, commands.len())
        }),
{
    let ghost commands = commands_of(findings.deep_view(), findings@.len());
    let mut names: Vec<String> = Vec::new();
    let mut i: usize = 0;
    assert(names.deep_view() =~= names_of(commands, 0));
    while i < places.len()
        invariant
            i <= places@.len(),
            commands == commands_of(findings.deep_view(), findings@.len()),
            commands_placed(findings@, commands, places@),
            names.deep_view() == names_of(commands, i as nat),
        decreases places@.len() - i,
    {
        let ghost before = names.deep_view();
        assert(command_at(findings@, commands, places@, i as int));
        if let Some(c) = command_of(findings, places[i]) {
            if !text::is_listed(&names, c.name.as_str()) {
                names.push(c.name.clone());
                assert(names.deep_view() =~= before.push(commands[i as int].0.name));
            }
        }
        i += 1;
    }
    names
}

fn group_lines(findings: &Vec<Finding>, places: &Vec<(usize, usize)>, name: &str) -> (res: String)
    requires
        commands_placed(
            findings@,
            commands_of(findings.deep_view(), findings@.len()),
            places@,
        ),
    ensures
        res@ == group_text(commands_of(findings.deep_view(), findings@.len()), name@),
{
    let group = collect_group(findings, places, name);
    assert(group.texts@.len() == group.texts.deep_view().len());
    let mut out = if group.texts.len() > 1 {
        let list = text::join(&group.ecosystems, ", ");
        let head = concat3("# Multiple ecosystems suggest `", name, "` (");
        concat3(head.as_str(), list.as_str(), "). Uncomment ONE:\n")
    } else {
        "".to_owned()
    };
    let body = text::join(&group.texts, "\n");
    out.append(body.as_str());
    out.append("\n");
    out
}

fn render_commands(findings: &Vec<Finding>) -> (res: String)
    ensures
        res@ == commands_text(commands_of(findings.deep_view(), findings@.len())),
{
    let places = command_places(findings);
    let names = collect_names(findings, &places);
    let ghost commands = commands_of(findings.deep_view(), findings@.len());
    let ghost all = names.deep_view();
    assert(names@.len() == all.len());
    if names.len() == 0 {
        return "".to_owned();
    }
    let mut groups = String::new();
    let mut i: usize = 0;
    assert(groups@ =~= groups_text(commands, all, 0));
    while i < names.len()
        invariant
            i <= names@.len(),
            all == names.deep_view(),
            commands == commands_of(findings.deep_view(), findings@.len()),
            commands_placed(findings@, commands, places@),
            groups@ == groups_text(commands, all, i as nat),
        decreases names@.len() - i,
    {
        assert(all[i as int] == names@[i as int]@);
        let group = group_lines(findings, &places, names[i].as_str());
        groups.append(group.as_str());
        i += 1;
    }
    concat("# Detected commands (uncomment to enable).\n\n", groups.as_str())
}

/// The text of the configuration.
pub fn render(project_name: &str, findings: &Vec<Finding>) -> (res: String)
    ensures
        res@ == config_text(project_name@, findings.deep_view()),
{
    let places = all_places(findings);
    let name = escape(project_name);
    let mut out = concat3(
        "# ampelos configuration. See AGENTS.md / README.md for guidance.\n# Auto-detected suggestions below are commented — uncomment what you want.\n\n",
        "[project]\nname = \"",
        name.as_str(),
    );
    out.append("\"\n\n");
    assert(findings.deep_view().len() == findings@.len());
    render_runtime(&mut out, findings, &places);
    render_devcontainer(&mut out, findings, &places);
    render_env_files(&mut out, findings, &places);
    let commands = render_commands(findings);
    out.append(commands.as_str());
    out
}

// ---------------------------------------------------------------------------
// Laws
// ---------------------------------------------------------------------------
/// The `runtime` section belongs to the first finding that claims it.
pub proof fn law_first_runtime_wins(fragments: Seq<detector::FragmentModel>, i: int)
    requires
        0 <= i < fragments.len(),
        fragments[i] is Runtime,
        forall|k: int| 0 <= k < i ==> !((#[trigger] fragments[k]) is Runtime),
    ensures
        first_runtime(fragments, fragments.len()) == Some(fragments[i]),
{
    lemma_no_runtime(fragments, i as nat);
    lemma_first_runtime(fragments, (i + 1) as nat, fragments.len());
}

proof fn lemma_no_runtime(fragments: Seq<detector::FragmentModel>, n: nat)
    requires
        n <= fragments.len(),
        forall|k: int| 0 <= k < n ==> !((#[trigger] fragments[k]) is Runtime),
    ensures
        first_runtime(fragments, n) is None,
    decreases n,
{
    if n > 0 {
        lemma_no_runtime(fragments, (n - 1) as nat);
    }
}

/// No environment file is listed twice, and every one that was found is listed.
pub proof fn law_env_files_are_listed_once(fragments: Seq<detector::FragmentModel>, n: nat)
    requires
        n <= fragments.len(),
    ensures
        env_list(fragments, n).no_duplicates(),
        forall|k: int|
            0 <= k < n && (#[trigger] fragments[k]) is EnvFile ==> env_list(fragments, n).contains(
                fragments[k]->EnvFile_0,
            ),
    decreases n,
{
    if n > 0 {
        law_env_files_are_listed_once(fragments, (n - 1) as nat);
        let before = env_list(fragments, (n - 1) as nat);
        let now = env_list(fragments, n);
        assert forall|k: int| 0 <= k < n && (#[trigger] fragments[k]) is EnvFile implies now.contains(
            fragments[k]->EnvFile_0,
        ) by {
            if k < n - 1 {
                let i = choose|i: int|
                    0 <= i < before.len() && before[i] == fragments[k]->EnvFile_0;
                assert(now[i] == before[i]);
            } else if !before.contains(fragments[k]->EnvFile_0) {
                assert(now[now.len() - 1] == fragments[k]->EnvFile_0);
            }
        }
    }
}

/// Whether `s` has no line break.
pub open spec fn flat(s: Seq<char>) -> bool {
    forall|i: int| 0 <= i < s.len() ==> #[trigger] s[i] != '\n'
}

/// Whether `s` is made of whole lines, each a comment or empty.
pub open spec fn commented(s: Seq<char>) -> bool {
    &&& s.len() > 0 ==> s.last() == '\n'
    &&& forall|i: int|
        0 <= i < s.len() && (i == 0 || s[i - 1] == '\n') ==> (#[trigger] s[i]) == '#' || s[i]
            == '\n'
}

/// Whether no value of a command holds a line break.
pub open spec fn flat_command(c: detector::CommandModel) -> bool {
    &&& flat(c.name)
    &&& flat(c.desc)
    &&& match c.run {
        detector::StepsModel::Single(s) => flat(s),
        detector::StepsModel::Steps(steps) => all_flat(steps),
    }
    &&& c.in_service matches Some(s) ==> flat(s)
    &&& all_flat(c.needs)
}

/// Whether none of `items` holds a line break.
pub open spec fn all_flat(items: Seq<Seq<char>>) -> bool {
    forall|i: int| 0 <= i < items.len() ==> flat(#[trigger] items[i])
}

proof fn lemma_commented_concat(a: Seq<char>, b: Seq<char>)
    requires
        commented(a),
        commented(b),
    ensures
        commented(a + b),
{
    let s = a + b;
    if b.len() > 0 {
        assert(s.last() == b.last());
    } else {
        assert(s =~= a);
    }
    assert forall|i: int| 0 <= i < s.len() && (i == 0 || s[i - 1] == '\n') implies (
    #[trigger] s[i]) == '#' || s[i] == '\n' by {
        if i >= a.len() {
            assert(s[i] == b[i - a.len()]);
            if i > a.len() {
                assert(s[i - 1] == b[i - a.len() - 1]);
            }
        } else {
            assert(s[i] == a[i]);
            if i > 0 {
                assert(s[i - 1] == a[i - 1]);
            }
        }
    }
}

proof fn lemma_comment_line(x: Seq<char>)
    requires
        flat(x),
        x.len() > 0,
        x[0] == '#',
    ensures
        commented(x.push('\n')),
{
    let s = x.push('\n');
    assert forall|i: int| 0 <= i < s.len() && (i == 0 || s[i - 1] == '\n') implies (
    #[trigger] s[i]) == '#' || s[i] == '\n' by {
        if i > 0 {
            assert(x[i - 1] == s[i - 1]);
        }
    }
}

proof fn lemma_flat_replaced(s: Seq<char>, c: char, with: Seq<char>)
    requires
        flat(s),
        flat(with),
    ensures
        flat(text::replaced(s, c, with)),
    decreases s.len(),
{
    if s.len() > 0 {
        lemma_flat_replaced(s.drop_last(), c, with);
    }
}

proof fn lemma_flat_joined(items: Seq<Seq<char>>, sep: Seq<char>)
    requires
        all_flat(items),
        flat(sep),
    ensures
        flat(text::joined(items, sep)),
    decreases items.len(),
{
    if items.len() > 0 {
        lemma_flat_joined(items.drop_last(), sep);
        assert(flat(items.last()));
    }
}

proof fn lemma_flat_quote(s: Seq<char>)
    requires
        flat(s),
    ensures
        flat(quote(s)),
{
    reveal_strlit("\\\\");
    reveal_strlit("\\\"");
    reveal_strlit("\"");
    lemma_flat_replaced(s, '\\', "\\\\"@);
    lemma_flat_replaced(text::replaced(s, '\\', "\\\\"@), '"', "\\\""@);
}

proof fn lemma_flat_quote_list(items: Seq<Seq<char>>)
    requires
        all_flat(items),
    ensures
        flat(quote_list(items)),
{
    let quotes = items.map_values(|s: Seq<char>| quote(s));
    assert forall|i: int| 0 <= i < quotes.len() implies flat(#[trigger] quotes[i]) by {
        assert(flat(items[i]));
        lemma_flat_quote(items[i]);
    }
    reveal_strlit(", ");
    lemma_flat_joined(quotes, ", "@);
}

proof fn lemma_kv_commented(key: Seq<char>, value: Seq<char>, width: nat)
    requires
        flat(key),
        flat(value),
    ensures
        commented(kv(key, value, width)),
{
    reveal_strlit("# ");
    reveal_strlit(" = ");
    reveal_strlit("\n");
    let x = "# "@ + text::padded_right(key, width) + " = "@ + value;
    assert(flat(x));
    assert(x[0] == '#');
    lemma_comment_line(x);
    assert(kv(key, value, width) =~= x.push('\n'));
}

proof fn lemma_optional_commented(key: Seq<char>, value: Option<Seq<char>>, width: nat)
    requires
        flat(key),
        value matches Some(v) ==> flat(v),
    ensures
        commented(optional_kv(key, value, width)),
{
    match value {
        Some(v) => lemma_kv_commented(key, v, width),
        None => {
            reveal_strlit("");
        },
    }
}

proof fn lemma_flat_concat(a: Seq<char>, b: Seq<char>)
    requires
        flat(a),
        flat(b),
    ensures
        flat(a + b),
{
}

proof fn lemma_title_commented(name: Seq<char>)
    requires
        flat(name),
    ensures
        commented("# [command."@ + name + "]\n"@),
{
    let head = "# [command."@ + name;
    assert("# [command."@.len() > 0 && "# [command."@[0] == '#' && flat("# [command."@)) by {
        reveal_strlit("# [command.");
    }
    assert("]\n"@ =~= "]"@.push('\n') && flat("]"@)) by {
        reveal_strlit("]\n");
        reveal_strlit("]");
    }
    lemma_flat_concat("# [command."@, name);
    lemma_flat_concat(head, "]"@);
    let x = head + "]"@;
    assert(x[0] == "# [command."@[0]);
    lemma_comment_line(x);
    assert(head + "]"@.push('\n') =~= x.push('\n'));
}

proof fn lemma_run_commented(run: detector::StepsModel, w: nat)
    requires
        match run {
            detector::StepsModel::Single(s) => flat(s),
            detector::StepsModel::Steps(steps) => all_flat(steps),
        },
    ensures
        commented(kv("run"@, run_value(run), w)),
{
    assert(flat("run"@)) by {
        reveal_strlit("run");
    }
    assert(flat(run_value(run))) by {
        reveal_strlit("[");
        reveal_strlit("]");
        match run {
            detector::StepsModel::Single(s) => lemma_flat_quote(s),
            detector::StepsModel::Steps(steps) => lemma_flat_quote_list(steps),
        }
    }
    lemma_kv_commented("run"@, run_value(run), w);
}

proof fn lemma_flag_commented(key: Seq<char>, flag: Option<bool>, w: nat)
    requires
        flat(key),
    ensures
        commented(optional_kv(key, flag_value(flag), w)),
{
    reveal_strlit("true");
    reveal_strlit("false");
    lemma_optional_commented(key, flag_value(flag), w);
}

proof fn lemma_command_commented(c: detector::CommandModel)
    requires
        flat_command(c),
    ensures
        commented(command_text(c)),
{
    let w = key_width(c);
    let title = "# [command."@ + c.name + "]\n"@;
    lemma_title_commented(c.name);
    assert(commented(kv("desc"@, quote(c.desc), w))) by {
        reveal_strlit("desc");
        lemma_flat_quote(c.desc);
        lemma_kv_commented("desc"@, quote(c.desc), w);
    }
    lemma_run_commented(c.run, w);
    let service = match c.in_service {
        Some(s) => Some(quote(s)),
        None => None,
    };
    assert(commented(optional_kv("in"@, service, w))) by {
        reveal_strlit("in");
        if c.in_service is Some {
            lemma_flat_quote(c.in_service->0);
        }
        lemma_optional_commented("in"@, service, w);
    }
    assert(flat("tty"@)) by {
        reveal_strlit("tty");
    }
    lemma_flag_commented("tty"@, c.tty, w);
    assert(flat("forward_args"@)) by {
        reveal_strlit("forward_args");
    }
    lemma_flag_commented("forward_args"@, c.forward_args, w);
    let needs = if c.needs.len() > 0 {
        Some("["@ + quote_list(c.needs) + "]"@)
    } else {
        None
    };
    assert(commented(optional_kv("needs"@, needs, w))) by {
        reveal_strlit("needs");
        reveal_strlit("[");
        reveal_strlit("]");
        lemma_flat_quote_list(c.needs);
        lemma_optional_commented("needs"@, needs, w);
    }
    let a = title + kv("desc"@, quote(c.desc), w);
    lemma_commented_concat(title, kv("desc"@, quote(c.desc), w));
    let b = a + kv("run"@, run_value(c.run), w);
    lemma_commented_concat(a, kv("run"@, run_value(c.run), w));
    let d = b + optional_kv("in"@, service, w);
    lemma_commented_concat(b, optional_kv("in"@, service, w));
    let e = d + optional_kv("tty"@, flag_value(c.tty), w);
    lemma_commented_concat(d, optional_kv("tty"@, flag_value(c.tty), w));
    let f = e + optional_kv("forward_args"@, flag_value(c.forward_args), w);
    lemma_commented_concat(e, optional_kv("forward_args"@, flag_value(c.forward_args), w));
    lemma_commented_concat(f, optional_kv("needs"@, needs, w));
}

/// Whether no command and no ecosystem holds a line break.
pub open spec fn flat_commands(commands: Seq<(detector::CommandModel, Seq<char>)>) -> bool {
    forall|i: int|
        0 <= i < commands.len() ==> flat_command((#[trigger] commands[i]).0) && flat(
            commands[i].1,
        )
}

proof fn lemma_group_parts(
    commands: Seq<(detector::CommandModel, Seq<char>)>,
    name: Seq<char>,
    n: nat,
)
    requires
        flat_commands(commands),
        n <= commands.len(),
    ensures
        forall|i: int|
            0 <= i < texts_named(commands, name, n).len() ==> commented(
                #[trigger] texts_named(commands, name, n)[i],
            ),
        all_flat(ecosystems_named(commands, name, n)),
    decreases n,
{
    if n > 0 {
        lemma_group_parts(commands, name, (n - 1) as nat);
        let c = commands[n - 1];
        assert(flat_command(c.0) && flat(c.1));
        lemma_command_commented(c.0);
        let before = texts_named(commands, name, (n - 1) as nat);
        let now = texts_named(commands, name, n);
        assert forall|i: int| 0 <= i < now.len() implies commented(#[trigger] now[i]) by {
            if i < before.len() {
                assert(now[i] == before[i]);
            }
        }
    }
}

proof fn lemma_joined_commented(texts: Seq<Seq<char>>)
    requires
        forall|i: int| 0 <= i < texts.len() ==> commented(#[trigger] texts[i]),
    ensures
        commented(text::joined(texts, "\n"@)),
    decreases texts.len(),
{
    if texts.len() > 0 {
        let front = texts.drop_last();
        lemma_joined_commented(front);
        assert(commented(texts.last()));
        reveal_strlit("\n");
        let head = text::joined(front, "\n"@);
        if texts.len() > 1 {
            lemma_commented_concat(head, "\n"@);
            lemma_commented_concat(head + "\n"@, texts.last());
        }
    }
}

proof fn lemma_heading_commented(name: Seq<char>, ecosystems: Seq<char>)
    requires
        flat(name),
        flat(ecosystems),
    ensures
        commented(heading(name, ecosystems)),
{
    reveal_strlit("# Multiple ecosystems suggest `");
    reveal_strlit("` (");
    reveal_strlit("). Uncomment ONE:\n");
    reveal_strlit("). Uncomment ONE:");
    let x = "# Multiple ecosystems suggest `"@ + name + "` ("@ + ecosystems
        + "). Uncomment ONE:"@;
    assert(flat(x));
    assert(x[0] == '#');
    lemma_comment_line(x);
    assert("). Uncomment ONE:\n"@ =~= "). Uncomment ONE:"@.push('\n'));
    assert(heading(name, ecosystems) =~= x.push('\n'));
}

proof fn lemma_group_commented(commands: Seq<(detector::CommandModel, Seq<char>)>, name: Seq<char>)
    requires
        flat_commands(commands),
        flat(name),
    ensures
        commented(group_text(commands, name)),
{
    let n = commands.len();
    lemma_group_parts(commands, name, n);
    let texts = texts_named(commands, name, n);
    let list = text::joined(ecosystems_named(commands, name, n), ", "@);
    assert(flat(list)) by {
        reveal_strlit(", ");
        lemma_flat_joined(ecosystems_named(commands, name, n), ", "@);
    }
    lemma_heading_commented(name, list);
    let head = if texts.len() > 1 {
        heading(name, list)
    } else {
        ""@
    };
    assert(commented(head)) by {
        reveal_strlit("");
    }
    assert(commented("\n"@)) by {
        reveal_strlit("\n");
    }
    lemma_joined_commented(texts);
    lemma_commented_concat(head, text::joined(texts, "\n"@));
    lemma_commented_concat(head + text::joined(texts, "\n"@), "\n"@);
}

proof fn lemma_names_flat(commands: Seq<(detector::CommandModel, Seq<char>)>, n: nat)
    requires
        flat_commands(commands),
        n <= commands.len(),
    ensures
        all_flat(names_of(commands, n)),
    decreases n,
{
    if n > 0 {
        lemma_names_flat(commands, (n - 1) as nat);
        assert(flat_command(commands[n - 1].0));
    }
}

proof fn lemma_groups_commented(
    commands: Seq<(detector::CommandModel, Seq<char>)>,
    names: Seq<Seq<char>>,
    n: nat,
)
    requires
        flat_commands(commands),
        all_flat(names),
        n <= names.len(),
    ensures
        commented(groups_text(commands, names, n)),
    decreases n,
{
    if n > 0 {
        lemma_groups_commented(commands, names, (n - 1) as nat);
        assert(flat(names[n - 1]));
        lemma_group_commented(commands, names[n - 1]);
        lemma_commented_concat(
            groups_text(commands, names, (n - 1) as nat),
            group_text(commands, names[n - 1]),
        );
    }
}

/// Every suggested command is commented out: each line of that part of the text
/// is a comment or empty, as long as no value holds a line break.
pub proof fn law_suggestions_are_commented(commands: Seq<(detector::CommandModel, Seq<char>)>)
    requires
        flat_commands(commands),
    ensures
        commented(commands_text(commands)),
{
    let names = names_of(commands, commands.len());
    reveal_strlit("");
    if names.len() > 0 {
        lemma_names_flat(commands, commands.len());
        lemma_groups_commented(commands, names, names.len());
        reveal_strlit("# Detected commands (uncomment to enable).\n\n");
        reveal_strlit("# Detected commands (uncomment to enable).");
        let x = "# Detected commands (uncomment to enable)."@;
        assert(flat(x));
        lemma_comment_line(x);
        reveal_strlit("\n");
        let head = "# Detected commands (uncomment to enable).\n\n"@;
        assert(commented("\n"@));
        assert(head =~= x.push('\n') + "\n"@);
        lemma_commented_concat(x.push('\n'), "\n"@);
        lemma_commented_concat(head, groups_text(commands, names, names.len()));
    }
}

/// Escaping goes through a text character by character: a backslash and a quote get a
/// backslash in front, and nothing else changes.
pub proof fn law_only_quotes_and_backslashes_are_escaped(a: Seq<char>, b: Seq<char>, c: char)
    ensures
        escaped(a + b) == escaped(a) + escaped(b),
        escaped(seq!['"']) == seq!['\\', '"'],
        escaped(seq!['\\']) == seq!['\\', '\\'],
        c != '"' && c != '\\' ==> escaped(seq![c]) == seq![c],
{
    reveal_strlit("\\\\");
    reveal_strlit("\\\"");
    let (slash, quote) = ("\\\\"@, "\\\""@);
    assert(slash =~= seq!['\\', '\\']);
    assert(quote =~= seq!['\\', '"']);
    text::law_replacing_goes_through_the_text(a, b, '\\', slash);
    text::law_replacing_goes_through_the_text(
        text::replaced(a, '\\', slash),
        text::replaced(b, '\\', slash),
        '"',
        quote,
    );
    text::law_replacing_goes_through_the_text(seq!['"'], seq![], '\\', slash);
    assert(!seq!['"'].contains('\\'));
    text::law_replacing_goes_through_the_text(seq!['"'], seq![], '"', quote);
    assert(!slash.contains('"'));
    text::law_replacing_goes_through_the_text(slash, seq![], '"', quote);
    text::law_replacing_goes_through_the_text(seq!['\\'], seq![], '\\', slash);
    if c != '"' && c != '\\' {
        assert(!seq![c].contains('\\') && !seq![c].contains('"'));
        text::law_replacing_goes_through_the_text(seq![c], seq![], '\\', slash);
        text::law_replacing_goes_through_the_text(seq![c], seq![], '"', quote);
    }
}

/// Every fragment of every finding is used, in order.
pub proof fn law_every_fragment_is_used(findings: Seq<detector::FindingModel>)
    ensures
        lists::chains(
            fragments_of(findings, findings.len()),
            |i: int| findings[i].fragments,
            findings.len(),
        ),
{
    lemma_fragments_of(findings, findings.len());
}

proof fn lemma_fragments_of(findings: Seq<detector::FindingModel>, n: nat)
    requires
        n <= findings.len(),
    ensures
        lists::chains(fragments_of(findings, n), |i: int| findings[i].fragments, n),
    decreases n,
{
    let part = |i: int| findings[i].fragments;
    if n == 0 {
        lists::lemma_chains_none(part);
    } else {
        let m = (n - 1) as nat;
        lemma_fragments_of(findings, m);
        lists::lemma_chains_next(fragments_of(findings, m), part, m);
    }
}

/// The `devcontainer` section belongs to the first finding that claims it, and there is
/// none where nobody does.
pub proof fn law_first_devcontainer_wins(fragments: Seq<detector::FragmentModel>, i: int)
    requires
        0 <= i <= fragments.len(),
        i < fragments.len() ==> fragments[i] is Devcontainer,
        forall|k: int| 0 <= k < i ==> !((#[trigger] fragments[k]) is Devcontainer),
    ensures
        i < fragments.len() ==> first_devcontainer(fragments, fragments.len()) == Some(
            fragments[i]->Devcontainer_path,
        ) && devcontainer_text(fragments) == "[devcontainer]\nenabled = true\npath = \""@
            + escaped(fragments[i]->Devcontainer_path) + "\"\n\n"@,
        i == fragments.len() ==> devcontainer_text(fragments) == ""@,
{
    lemma_first_devcontainer_at(fragments, i, fragments.len());
}

proof fn lemma_first_devcontainer_at(
    fragments: Seq<detector::FragmentModel>,
    i: int,
    n: nat,
)
    requires
        n <= fragments.len(),
        0 <= i <= fragments.len(),
        i < fragments.len() ==> fragments[i] is Devcontainer,
        forall|k: int| 0 <= k < i ==> !((#[trigger] fragments[k]) is Devcontainer),
    ensures
        i < n ==> first_devcontainer(fragments, n) == Some(fragments[i]->Devcontainer_path),
        i >= n ==> first_devcontainer(fragments, n) is None,
    decreases n,
{
    if n > 0 {
        lemma_first_devcontainer_at(fragments, i, (n - 1) as nat);
    }
}

/// The `runtime` section says what its fragment does; without one there is no backend.
pub proof fn law_the_runtime_is_written(fragments: Seq<detector::FragmentModel>, i: int)
    requires
        0 <= i <= fragments.len(),
        i < fragments.len() ==> fragments[i] is Runtime,
        forall|k: int| 0 <= k < i ==> !((#[trigger] fragments[k]) is Runtime),
    ensures
        i == fragments.len() ==> runtime_text(fragments) == "[runtime]\nbackend = \"none\"\n\n"@,
        i < fragments.len() ==> {
            let r = fragments[i];
            let text = runtime_text(fragments);
            let service = match r->default_service {
                Some(s) => "default_service = \""@ + escaped(s) + "\"\n"@,
                None => "# default_service = \"app\"\n"@,
            };
            let yes = |b: bool| if b { "true"@ } else { "false"@ };
            text == "[runtime]\nbackend = \""@ + r->backend + "\"\n"@ + service
                + "compose_passthrough = "@ + yes(r->compose_passthrough)
                + "\nservice_passthrough = "@ + yes(r->service_passthrough) + "\n\n"@
        },
{
    if i < fragments.len() {
        law_first_runtime_wins(fragments, i);
    } else {
        lemma_no_runtime(fragments, fragments.len());
    }
}

/// The environment files that are listed are those that were found, and each stands
/// where it was first found.
pub proof fn law_only_found_env_files_are_listed(fragments: Seq<detector::FragmentModel>, p: Seq<char>)
    ensures
        env_list(fragments, fragments.len()).contains(p) <==> fragments.contains(
            detector::FragmentModel::EnvFile(p),
        ),
        env_list(fragments, fragments.len()).len() > 0 ==> env_text(fragments)
            == "[env_files]\nfiles = ["@ + quote_list(env_list(fragments, fragments.len()))
            + "]\n\n"@,
        env_list(fragments, fragments.len()).len() == 0 ==> env_text(fragments) == ""@,
{
    lemma_env_list(fragments, p, fragments.len());
    let entry = detector::FragmentModel::EnvFile(p);
    if fragments.contains(entry) {
        let k = fragments.index_of(entry);
        assert(fragments[k] == entry);
    }
}

proof fn lemma_env_list(fragments: Seq<detector::FragmentModel>, p: Seq<char>, n: nat)
    requires
        n <= fragments.len(),
    ensures
        env_list(fragments, n).contains(p) <==> exists|k: int|
            0 <= k < n && #[trigger] fragments[k] == detector::FragmentModel::EnvFile(p),
    decreases n,
{
    if n > 0 {
        let m = (n - 1) as nat;
        lemma_env_list(fragments, p, m);
        let before = env_list(fragments, m);
        let now = env_list(fragments, n);
        if before.contains(p) {
            assert(now[before.index_of(p)] == p);
            let k = choose|k: int|
                0 <= k < m && #[trigger] fragments[k] == detector::FragmentModel::EnvFile(p);
            assert(fragments[k] == detector::FragmentModel::EnvFile(p));
        } else if fragments[m as int] == detector::FragmentModel::EnvFile(p) {
            assert(now[before.len() as int] == p);
        } else if now.contains(p) {
            let i = now.index_of(p);
            if i < before.len() {
                assert(before[i] == p);
            }
            assert(false);
        }
    }
}

/// Every command of every finding is suggested, in order, with its ecosystem.
pub proof fn law_every_command_is_suggested(findings: Seq<detector::FindingModel>)
    ensures
        lists::chains(
            commands_of(findings, findings.len()),
            |i: int|
                commands_in(
                    findings[i].fragments,
                    findings[i].ecosystem,
                    findings[i].fragments.len(),
                ),
            findings.len(),
        ),
        forall|i: int|
            0 <= i < findings.len() ==> lists::selects(
                commands_in(
                    (#[trigger] findings[i]).fragments,
                    findings[i].ecosystem,
                    findings[i].fragments.len(),
                ),
                |k: int| (findings[i].fragments[k]->Command_0, findings[i].ecosystem),
                |k: int| findings[i].fragments[k] is Command,
                findings[i].fragments.len(),
            ),
{
    lemma_commands_of(findings, findings.len());
    assert forall|i: int| 0 <= i < findings.len() implies lists::selects(
        commands_in(
            (#[trigger] findings[i]).fragments,
            findings[i].ecosystem,
            findings[i].fragments.len(),
        ),
        |k: int| (findings[i].fragments[k]->Command_0, findings[i].ecosystem),
        |k: int| findings[i].fragments[k] is Command,
        findings[i].fragments.len(),
    ) by {
        let f = findings[i];
        lemma_commands_in(f.fragments, f.ecosystem, f.fragments.len());
        assert((|k: int| (findings[i].fragments[k]->Command_0, findings[i].ecosystem))
            =~= (|k: int| (f.fragments[k]->Command_0, f.ecosystem)));
        assert((|k: int| findings[i].fragments[k] is Command)
            =~= (|k: int| f.fragments[k] is Command));
    }
}

proof fn lemma_commands_of(findings: Seq<detector::FindingModel>, n: nat)
    requires
        n <= findings.len(),
    ensures
        lists::chains(
            commands_of(findings, n),
            |i: int|
                commands_in(
                    findings[i].fragments,
                    findings[i].ecosystem,
                    findings[i].fragments.len(),
                ),
            n,
        ),
    decreases n,
{
    let part = |i: int|
        commands_in(findings[i].fragments, findings[i].ecosystem, findings[i].fragments.len());
    if n == 0 {
        lists::lemma_chains_none(part);
    } else {
        let m = (n - 1) as nat;
        lemma_commands_of(findings, m);
        lists::lemma_chains_next(commands_of(findings, m), part, m);
    }
}

proof fn lemma_commands_in(
    fragments: Seq<detector::FragmentModel>,
    ecosystem: Seq<char>,
    n: nat,
)
    requires
        n <= fragments.len(),
    ensures
        lists::selects(
            commands_in(fragments, ecosystem, n),
            |k: int| (fragments[k]->Command_0, ecosystem),
            |k: int| fragments[k] is Command,
            n,
        ),
    decreases n,
{
    let value = |k: int| (fragments[k]->Command_0, ecosystem);
    let keep = |k: int| fragments[k] is Command;
    if n == 0 {
        lists::lemma_selects_none(value, keep);
    } else {
        let m = (n - 1) as nat;
        lemma_commands_in(fragments, ecosystem, m);
        lists::lemma_selects_next(commands_in(fragments, ecosystem, m), value, keep, m);
    }
}

/// Commands are grouped by name: each name has one group, in the order in which the
/// names first occur, with the texts and the ecosystems of all its commands in order.
pub proof fn law_commands_are_grouped_by_name(
    commands: Seq<(detector::CommandModel, Seq<char>)>,
    name: Seq<char>,
)
    ensures
        names_of(commands, commands.len()).no_duplicates(),
        names_of(commands, commands.len()).contains(name) <==> exists|i: int|
            0 <= i < commands.len() && (#[trigger] commands[i]).0.name == name,
        lists::selects(
            texts_named(commands, name, commands.len()),
            |i: int| command_text(commands[i].0),
            |i: int| commands[i].0.name == name,
            commands.len(),
        ),
        lists::selects(
            ecosystems_named(commands, name, commands.len()),
            |i: int| commands[i].1,
            |i: int| commands[i].0.name == name,
            commands.len(),
        ),
        lists::chains(
            groups_text(commands, names_of(commands, commands.len()), names_of(commands, commands.len()).len()),
            |i: int| group_text(commands, names_of(commands, commands.len())[i]),
            names_of(commands, commands.len()).len(),
        ),
{
    lemma_names_of(commands, name, commands.len());
    lemma_texts_named(commands, name, commands.len());
    let names = names_of(commands, commands.len());
    lemma_groups_text(commands, names, names.len());
}

proof fn lemma_names_of(
    commands: Seq<(detector::CommandModel, Seq<char>)>,
    name: Seq<char>,
    n: nat,
)
    requires
        n <= commands.len(),
    ensures
        names_of(commands, n).no_duplicates(),
        names_of(commands, n).contains(name) <==> exists|i: int|
            0 <= i < n && (#[trigger] commands[i]).0.name == name,
    decreases n,
{
    if n > 0 {
        let m = (n - 1) as nat;
        lemma_names_of(commands, name, m);
        let before = names_of(commands, m);
        let now = names_of(commands, n);
        if before.contains(name) {
            assert(now[before.index_of(name)] == name);
            let i = choose|i: int| 0 <= i < m && (#[trigger] commands[i]).0.name == name;
            assert(commands[i].0.name == name);
        } else if commands[m as int].0.name == name {
            assert(now[before.len() as int] == name);
        } else if now.contains(name) {
            let i = now.index_of(name);
            if i < before.len() {
                assert(before[i] == name);
            }
            assert(false);
        }
    }
}

proof fn lemma_texts_named(
    commands: Seq<(detector::CommandModel, Seq<char>)>,
    name: Seq<char>,
    n: nat,
)
    requires
        n <= commands.len(),
    ensures
        lists::selects(
            texts_named(commands, name, n),
            |i: int| command_text(commands[i].0),
            |i: int| commands[i].0.name == name,
            n,
        ),
        lists::selects(
            ecosystems_named(commands, name, n),
            |i: int| commands[i].1,
            |i: int| commands[i].0.name == name,
            n,
        ),
    decreases n,
{
    let text = |i: int| command_text(commands[i].0);
    let ecosystem = |i: int| commands[i].1;
    let keep = |i: int| commands[i].0.name == name;
    if n == 0 {
        lists::lemma_selects_none(text, keep);
        lists::lemma_selects_none(ecosystem, keep);
    } else {
        let m = (n - 1) as nat;
        lemma_texts_named(commands, name, m);
        lists::lemma_selects_next(texts_named(commands, name, m), text, keep, m);
        lists::lemma_selects_next(ecosystems_named(commands, name, m), ecosystem, keep, m);
    }
}

proof fn lemma_groups_text(
    commands: Seq<(detector::CommandModel, Seq<char>)>,
    names: Seq<Seq<char>>,
    n: nat,
)
    requires
        n <= names.len(),
    ensures
        lists::chains(
            groups_text(commands, names, n),
            |i: int| group_text(commands, names[i]),
            n,
        ),
    decreases n,
{
    let part = |i: int| group_text(commands, names[i]);
    if n == 0 {
        lists::lemma_chains_none(part);
    } else {
        let m = (n - 1) as nat;
        lemma_groups_text(commands, names, m);
        lists::lemma_chains_next(groups_text(commands, names, m), part, m);
    }
}

/// The text of a command holds its name and each of its values that is given, in this
/// order: description, what it runs, service, terminal, further arguments and needs.
pub proof fn law_commands_are_written_whole(c: detector::CommandModel)
    ensures
        ({
            let w = key_width(c);
            let line = |key: Seq<char>, value: Seq<char>|
                "# "@ + text::padded_right(key, w) + " = "@ + value + "\n"@;
            let yes = |b: bool| if b { "true"@ } else { "false"@ };
            let run = match c.run {
                detector::StepsModel::Single(s) => quote(s),
                detector::StepsModel::Steps(steps) => "["@ + quote_list(steps) + "]"@,
            };
            command_text(c) == "# [command."@ + c.name + "]\n"@ + line("desc"@, quote(c.desc))
                + line("run"@, run) + (if c.in_service is Some {
                line("in"@, quote(c.in_service->0))
            } else {
                ""@
            }) + (if c.tty is Some {
                line("tty"@, yes(c.tty->0))
            } else {
                ""@
            }) + (if c.forward_args is Some {
                line("forward_args"@, yes(c.forward_args->0))
            } else {
                ""@
            }) + (if c.needs.len() > 0 {
                line("needs"@, "["@ + quote_list(c.needs) + "]"@)
            } else {
                ""@
            })
        }),
        forall|s: Seq<char>| #[trigger] quote(s) == "\""@ + escaped(s) + "\""@,
{
}

/// The configuration holds the project's name, then the runtime, the development
/// container, the environment files and the suggested commands of what was found; the
/// commands only where there are any.
pub proof fn law_configurations_hold_every_section(
    name: Seq<char>,
    findings: Seq<detector::FindingModel>,
)
    ensures
        ({
            let all = config_text(name, findings);
            let fragments = fragments_of(findings, findings.len());
            let commands = commands_of(findings, findings.len());
            let names = names_of(commands, commands.len());
            let head = "# ampelos configuration. See AGENTS.md / README.md for guidance.\n# Auto-detected suggestions below are commented — uncomment what you want.\n\n"@
                + "[project]\nname = \""@ + escaped(name) + "\"\n\n"@;
            let a = head.len() as int;
            let b = a + runtime_text(fragments).len();
            let c = b + devcontainer_text(fragments).len();
            let d = c + env_text(fragments).len();
            &&& all.take(a) == head
            &&& all.subrange(a, b) == runtime_text(fragments)
            &&& all.subrange(b, c) == devcontainer_text(fragments)
            &&& all.subrange(c, d) == env_text(fragments)
            &&& names.len() == 0 ==> all.skip(d) == ""@
            &&& names.len() > 0 ==> all.skip(d) == "# Detected commands (uncomment to enable).\n\n"@
                + groups_text(commands, names, names.len())
        }),
{
    let all = config_text(name, findings);
    let fragments = fragments_of(findings, findings.len());
    let commands = commands_of(findings, findings.len());
    let head = "# ampelos configuration. See AGENTS.md / README.md for guidance.\n# Auto-detected suggestions below are commented — uncomment what you want.\n\n"@
        + "[project]\nname = \""@ + escaped(name) + "\"\n\n"@;
    let a = head.len() as int;
    let b = a + runtime_text(fragments).len();
    let c = b + devcontainer_text(fragments).len();
    let d = c + env_text(fragments).len();
    assert(all.take(a) =~= head);
    assert(all.subrange(a, b) =~= runtime_text(fragments));
    assert(all.subrange(b, c) =~= devcontainer_text(fragments));
    assert(all.subrange(c, d) =~= env_text(fragments));
    assert(all.skip(d) =~= commands_text(commands));
}

} // verus!
