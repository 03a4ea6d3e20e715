//! `watch`: which changes run a recipe again, and when.
use crate::paths;
use crate::text;
use crate::text::{concat, concat3};
use vstd::prelude::*;

verus! {

/// How long changes are gathered, in milliseconds.
pub const DEFAULT_DEBOUNCE_MS: u64 = 300;

/// Whether a part of a path is one whose contents are not watched.
pub open spec fn ignored_segment(s: Seq<char>) -> bool {
    s == "target"@ || s == ".git"@ || s == "node_modules"@ || s == ".croft"@
}

/// Whether a path lies in a directory that is not watched, or is one.
pub open spec fn path_ignored(path: Seq<char>) -> bool {
    exists|i: int|
        0 <= i < paths::components_of(path).len() && ignored_segment(
            #[trigger] paths::components_of(path)[i],
        )
}

/// Whether a path lies in a directory that is not watched, or is one.
pub fn is_ignored(path: &str) -> (res: bool)
    ensures
        res == path_ignored(path@),
{
    let parts = paths::components(path);
    let mut i: usize = 0;
    while i < parts.len()
        invariant
            i <= parts@.len(),
            parts.deep_view() == paths::components_of(path@),
            forall|k: int|
                0 <= k < i ==> !ignored_segment(#[trigger] paths::components_of(path@)[k]),
        decreases parts@.len() - i,
    {
        let part = parts[i].as_str();
        assert(part@ == paths::components_of(path@)[i as int]);
        if *part == *"target" || *part == *".git" || *part == *"node_modules" || *part == *".croft" {
            return true;
        }
        i += 1;
    }
    assert(parts@.len() == parts.deep_view().len());
    false
}

/// Whether a part of a path is hidden: it begins with a dot, and is more than that.
pub open spec fn dotfile(s: Seq<char>) -> bool {
    s.len() > 1 && s[0] == '.' && s != ".."@
}

/// Whether a part of `path` is hidden.
pub open spec fn has_dotfile(path: Seq<char>) -> bool {
    exists|i: int|
        0 <= i < paths::components_of(path).len() && dotfile(
            #[trigger] paths::components_of(path)[i],
        )
}

/// Whether a part of `path` below `root` is hidden.
pub open spec fn hidden_below(path: Seq<char>, root: Seq<char>) -> bool {
    paths::below(path, root) matches Some(rest) && has_dotfile(rest)
}

/// Whether a part of `path` below `root` is hidden.
pub fn is_hidden(path: &str, root: &str) -> (res: bool)
    ensures
        res == hidden_below(path@, root@),
{
    let rest = match paths::strip_base(path, root) {
        Some(rest) => rest,
        None => {
            return false;
        },
    };
    let parts = paths::components(rest.as_str());
    let mut i: usize = 0;
    while i < parts.len()
        invariant
            i <= parts@.len(),
            parts.deep_view() == paths::components_of(rest@),
            paths::below(path@, root@) == Some(rest@),
            forall|k: int| 0 <= k < i ==> !dotfile(#[trigger] paths::components_of(rest@)[k]),
        decreases parts@.len() - i,
    {
        let part = parts[i].as_str();
        assert(part@ == paths::components_of(rest@)[i as int]);
        proof {
            reveal_strlit(".");
            reveal_strlit("..");
        }
        if text::starts_with(part, ".") && *part != *"." && *part != *".." {
            assert(part@[0] == "."@[0]);
            assert(part@.len() != 1) by {
                if part@.len() == 1 {
                    assert(part@ =~= "."@);
                }
            }
            assert(parts@.len() == parts.deep_view().len());
            assert(dotfile(paths::components_of(rest@)[i as int]));
            assert(has_dotfile(rest@));
            return true;
        }
        assert(!dotfile(part@)) by {
            if dotfile(part@) {
                assert(part@.take(1) =~= "."@);
            }
        }
        i += 1;
    }
    assert(parts@.len() == parts.deep_view().len());
    false
}

/// A change of the file system.
#[derive(Debug, PartialEq, Eq)]
pub struct Change {
    /// Whether files were only read.
    pub access: bool,
    pub paths: Vec<String>,
}

/// Whether a path counts: it is watched and, where the whole project is, it is not
/// hidden in it.
pub open spec fn path_counts(path: Seq<char>, project: Option<Seq<char>>) -> bool {
    &&& !path_ignored(path)
    &&& project matches Some(root) ==> !hidden_below(path, root)
}

/// Whether a change counts: something other than a read, of a path that counts.
pub open spec fn relevant(event: Change, project: Option<Seq<char>>) -> bool {
    &&& !event.access
    &&& exists|i: int|
        0 <= i < event.paths@.len() && path_counts(#[trigger] event.paths@[i]@, project)
}

/// Whether a change counts. The project is given where all of it is watched.
pub fn event_is_relevant(event: &Change, project: Option<&str>) -> (res: bool)
    ensures
        res == relevant(*event, project.deep_view()),
{
    if event.access {
        return false;
    }
    let mut i: usize = 0;
    while i < event.paths.len()
        invariant
            i <= event.paths@.len(),
            !event.access,
            forall|k: int|
                0 <= k < i ==> !path_counts(#[trigger] event.paths@[k]@, project.deep_view()),
        decreases event.paths@.len() - i,
    {
        let path = event.paths[i].as_str();
        if !is_ignored(path) {
            let hidden = match project {
                Some(root) => is_hidden(path, root),
                None => false,
            };
            if !hidden {
                assert(path_counts(event.paths@[i as int]@, project.deep_view()));
                return true;
            }
        }
        i += 1;
    }
    false
}

/// What is watched: the paths that were named, else the project.
pub fn watch_paths(project_root: &str, named: Vec<String>) -> (res: Vec<String>)
    ensures
        res.deep_view() == if named@.len() == 0 {
            seq![project_root@]
        } else {
            named.deep_view()
        },
{
    if named.len() == 0 {
        let res = vec![project_root.to_owned()];
        assert(res.deep_view() =~= seq![project_root@]);
        res
    } else {
        named
    }
}

/// How long changes are gathered, in milliseconds.
pub fn debounce(asked_ms: Option<u64>) -> (res: u64)
    ensures
        res == match asked_ms {
            Some(ms) => ms,
            None => DEFAULT_DEBOUNCE_MS,
        },
{
    match asked_ms {
        Some(ms) => ms,
        None => DEFAULT_DEBOUNCE_MS,
    }
}

/// What happens while a recipe is watched.
#[derive(Debug, PartialEq, Eq)]
pub enum WatchEvent {
    /// Something changed, at that time in milliseconds.
    Changed(Change, u64),
    /// The time came that was waited for.
    Due,
    /// There will be no more changes.
    Closed,
}

/// What to do next while a recipe is watched.
#[derive(Debug, Clone, Copy, PartialEq, Eq, Structural)]
pub enum WatchAction {
    /// Wait for a change, or for that time.
    Wait(Option<u64>),
    /// Run the recipe again, and wait for a change.
    Rerun,
    /// Stop.
    Finish,
}

/// What to do next: a change that counts puts the run off until nothing more has
/// changed for a while; others change nothing.
pub fn watch_step(
    pending: Option<u64>,
    event: &WatchEvent,
    project: Option<&str>,
    debounce_ms: u64,
) -> (res: WatchAction)
    requires
        event matches WatchEvent::Changed(_, now) ==> now + debounce_ms <= u64::MAX,
    ensures
        res == match *event {
            WatchEvent::Changed(change, now) => if relevant(change, project.deep_view()) {
                WatchAction::Wait(Some((now + debounce_ms) as u64))
            } else {
                WatchAction::Wait(pending)
            },
            WatchEvent::Due => WatchAction::Rerun,
            WatchEvent::Closed => WatchAction::Finish,
        },
{
    match event {
        WatchEvent::Changed(change, now) => if event_is_relevant(change, project) {
            WatchAction::Wait(Some(*now + debounce_ms))
        } else {
            WatchAction::Wait(pending)
        },
        WatchEvent::Due => WatchAction::Rerun,
        WatchEvent::Closed => WatchAction::Finish,
    }
}

/// The line that begins a watch.
pub fn banner(watched: &Vec<String>, debounce_ms: u64) -> (res: String)
    ensures
        res@ == "Watching "@ + text::joined(watched.deep_view(), ", "@) + " (debounce "@
            + text::digits(debounce_ms as nat) + " ms). Initial run..."@,
{
    let listed = text::join(watched, ", ");
    let n = text::decimal(debounce_ms);
    let head = concat3("Watching ", listed.as_str(), " (debounce ");
    concat3(head.as_str(), n.as_str(), " ms). Initial run...")
}

/// The line above another run.
pub fn rerun_line(recipe: &str) -> (res: String)
    ensures
        res@ == "\nFiles changed; re-running `"@ + recipe@ + "`..."@,
{
    concat3("\nFiles changed; re-running `", recipe, "`...")
}

/// The line below a run.
pub fn exit_line(code: i32) -> (res: String)
    ensures
        res@ == if code == 0 {
            "✓ exit 0"@
        } else {
            "✗ exit "@ + text::signed_digits(code as int)
        },
{
    if code == 0 {
        "✓ exit 0".to_owned()
    } else {
        let n = text::signed_decimal(code as i64);
        concat("✗ exit ", n.as_str())
    }
}

/// Nothing below a directory that is not watched runs a recipe again.
pub proof fn law_ignored_directories_are_quiet(event: Change, project: Option<Seq<char>>)
    requires
        forall|i: int| 0 <= i < event.paths@.len() ==> path_ignored(#[trigger] event.paths@[i]@),
    ensures
        !relevant(event, project),
{
}

/// Whether no name begins with a dot and goes on, but for `..`.
pub open spec fn undotted(names: Seq<Seq<char>>) -> bool {
    forall|i: int|
        0 <= i < names.len() ==> !((#[trigger] names[i]).len() > 1 && names[i][0] == '.'
            && names[i] != ".."@)
}

/// A path counts exactly where no component of it is a build directory, git's own, that
/// of installed packages or this tool's, and, where the whole project is watched, no
/// component below the project begins with a dot.
pub proof fn law_paths_that_count(path: Seq<char>, project: Option<Seq<char>>)
    ensures
        ({
            let names = paths::components_of(path);
            path_counts(path, project) <==> {
                &&& !names.contains("target"@) && !names.contains(".git"@) && !names.contains(
                    "node_modules"@,
                ) && !names.contains(".croft"@)
                &&& project is Some && paths::below(path, project->0) is Some ==> undotted(
                    paths::components_of(paths::below(path, project->0)->0),
                )
            }
        }),
{
    let names = paths::components_of(path);
    let bad = |s: Seq<char>|
        s == "target"@ || s == ".git"@ || s == "node_modules"@ || s == ".croft"@;
    if path_ignored(path) {
        let i = choose|i: int| 0 <= i < names.len() && ignored_segment(#[trigger] names[i]);
        assert(names.contains(names[i]));
    } else {
        assert forall|s: Seq<char>| bad(s) implies !names.contains(s) by {
            if names.contains(s) {
                let i = names.index_of(s);
                assert(ignored_segment(names[i]));
            }
        }
        assert(bad("target"@) && bad(".git"@) && bad("node_modules"@) && bad(".croft"@));
    }
    if project is Some && paths::below(path, project->0) is Some {
        let rest = paths::components_of(paths::below(path, project->0)->0);
        if hidden_below(path, project->0) {
            let i = choose|i: int| 0 <= i < rest.len() && dotfile(#[trigger] rest[i]);
            assert(rest[i].len() > 1 && rest[i][0] == '.' && rest[i] != ".."@);
        } else {
            assert forall|i: int| 0 <= i < rest.len() implies !((#[trigger] rest[i]).len() > 1
                && rest[i][0] == '.' && rest[i] != ".."@) by {
                assert(!dotfile(rest[i]));
            }
        }
    }
}

/// A change counts exactly where it is no mere read and one of its paths counts.
pub proof fn law_changes_that_count(event: Change, project: Option<Seq<char>>, i: int)
    ensures
        event.access ==> !relevant(event, project),
        !event.access && 0 <= i < event.paths@.len() && path_counts(event.paths@[i]@, project)
            ==> relevant(event, project),
        relevant(event, project) ==> exists|k: int|
            0 <= k < event.paths@.len() && path_counts(#[trigger] event.paths@[k]@, project),
{
}

} // verus!
