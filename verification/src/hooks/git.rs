//! What hooks ask of git: where the repository is, and which files are staged.
use crate::hooks::error;
use crate::hooks::error::HookError;
use crate::paths;
use crate::text;
use crate::text::{concat, concat3};
use crate::lists;
use vstd::prelude::*;

verus! {

/// A path and the paths above it, nearest first.
pub open spec fn ancestors_of(p: Seq<char>) -> Seq<Seq<char>>
    decreases p.len(),
{
    match paths::parent_of(p) {
        Some(up) => {
            proof {
                paths::lemma_parent_is_shorter(p);
            }
            seq![p] + ancestors_of(up)
        },
        None => seq![p],
    }
}

/// A path and the paths above it, nearest first.
pub fn ancestors(start: &str) -> (res: Vec<String>)
    ensures
        res.deep_view() == ancestors_of(start@),
{
    let mut out: Vec<String> = Vec::new();
    let mut cur = start.to_owned();
    let ghost want = ancestors_of(start@);
    assert(out.deep_view() + ancestors_of(cur@) =~= want);
    loop
        invariant_except_break
            out.deep_view() + ancestors_of(cur@) == want,
        ensures
            out.deep_view() == want,
        decreases cur@.len(),
    {
        let ghost before = out.deep_view();
        let ghost here = cur@;
        let up = paths::parent(cur.as_str());
        out.push(cur);
        assert(out.deep_view() =~= before.push(here));
        match up {
            Some(p) => {
                proof {
                    paths::lemma_parent_is_shorter(here);
                }
                assert(before.push(here) + ancestors_of(p@) =~= before + (seq![here]
                    + ancestors_of(p@)));
                cur = p;
            },
            None => {
                assert(before + seq![here] =~= before.push(here));
                break ;
            },
        }
    }
    out
}

/// The place of the first `true`.
pub open spec fn first_true(marks: Seq<bool>, i: int) -> bool {
    &&& 0 <= i < marks.len()
    &&& marks[i]
    &&& forall|k: int| 0 <= k < i ==> !#[trigger] marks[k]
}

/// The root of the working tree that holds `start`: the nearest of its ancestors
/// that `has_git` marks as having a `.git`.
pub fn discover_repo(start: &str, has_git: &Vec<bool>) -> (res: Result<String, HookError>)
    requires
        has_git@.len() == ancestors_of(start@).len(),
    ensures
        match res {
            Ok(root) => exists|i: int| #[trigger]
                first_true(has_git@, i) && root@ == ancestors_of(start@)[i],
            Err(e) => !has_git@.contains(true) && e@ == error::HookFault::NotARepo(start@),
        },
{
    let up = ancestors(start);
    let ghost all = up.deep_view();
    assert(all.len() == up@.len());
    let mut i: usize = 0;
    while i < up.len()
        invariant
            i <= up@.len(),
            up@.len() == has_git@.len(),
            all == up.deep_view(),
            all == ancestors_of(start@),
            forall|k: int| 0 <= k < i ==> !#[trigger] has_git@[k],
        decreases up@.len() - i,
    {
        if has_git[i] {
            assert(first_true(has_git@, i as int));
            assert(all[i as int] == up@[i as int]@);
            return Ok(up[i].clone());
        }
        i += 1;
    }
    Err(HookError::NotARepo(start.to_owned()))
}

/// How `git diff` ended.
#[derive(Debug, PartialEq, Eq)]
pub enum DiffEnd {
    /// It could not be started.
    NotSpawned(String),
    /// It succeeded, with what it printed.
    Printed(String),
    /// It failed: its status and what it said.
    Failed { status: String, stderr: String },
}

/// The lines among the first `n` that are not blank.
pub open spec fn written_lines(lines: Seq<Seq<char>>, n: nat) -> Seq<Seq<char>>
    decreases n,
{
    if n == 0 {
        seq![]
    } else {
        let before = written_lines(lines, (n - 1) as nat);
        if text::trimmed(lines[n - 1]).len() > 0 {
            before.push(lines[n - 1])
        } else {
            before
        }
    }
}

/// The staged files: the lines of `git diff --name-only --cached`.
pub fn staged_files(end: DiffEnd) -> (res: Result<Vec<String>, HookError>)
    ensures
        match end {
            DiffEnd::Printed(out) => res is Ok && res->Ok_0.deep_view() == written_lines(
                text::lines_of(out@),
                text::lines_of(out@).len(),
            ),
            DiffEnd::NotSpawned(e) => res is Err && res->Err_0@ == error::HookFault::GitFailed(
                "spawn git: "@ + e@,
            ),
            DiffEnd::Failed { status, stderr } => res is Err && res->Err_0@
                == error::HookFault::GitFailed("git diff exited "@ + status@ + ": "@ + stderr@),
        },
{
    match end {
        DiffEnd::Printed(out) => {
            let lines = text::lines(out.as_str());
            let ghost all = lines.deep_view();
            let mut files: Vec<String> = Vec::new();
            let mut i: usize = 0;
            assert(files.deep_view() =~= written_lines(all, 0));
            while i < lines.len()
                invariant
                    i <= lines@.len(),
                    all == lines.deep_view(),
                    files.deep_view() == written_lines(all, i as nat),
                decreases lines@.len() - i,
            {
                let ghost before = files.deep_view();
                assert(all[i as int] == lines@[i as int]@);
                let trimmed = text::trim(lines[i].as_str());
                if !trimmed.as_str().is_empty() {
                    files.push(lines[i].clone());
                    assert(files.deep_view() =~= before.push(all[i as int]));
                }
                i += 1;
            }
            Ok(files)
        },
        DiffEnd::NotSpawned(e) => Err(HookError::GitFailed(concat("spawn git: ", e.as_str()))),
        DiffEnd::Failed { status, stderr } => {
            let head = concat3("git diff exited ", status.as_str(), ": ");
            Err(HookError::GitFailed(concat(head.as_str(), stderr.as_str())))
        },
    }
}

/// A path heads the list of its ancestors, each further one is the parent of the one
/// before it, and the list goes on as long as there is a parent.
pub proof fn law_ancestors_go_up_to_the_top(p: Seq<char>)
    ensures
        ancestors_of(p).len() > 0,
        ancestors_of(p)[0] == p,
        forall|i: int|
            0 <= i < ancestors_of(p).len() - 1 ==> Some(ancestors_of(p)[i + 1])
                == paths::parent_of(#[trigger] ancestors_of(p)[i]),
        paths::parent_of(ancestors_of(p).last()) is None,
    decreases p.len(),
{
    if let Some(up) = paths::parent_of(p) {
        paths::lemma_parent_is_shorter(p);
        law_ancestors_go_up_to_the_top(up);
        let above = ancestors_of(up);
        let all = ancestors_of(p);
        assert(all =~= seq![p] + above);
        assert forall|i: int| 0 <= i < all.len() - 1 implies Some(all[i + 1])
            == paths::parent_of(#[trigger] all[i]) by {
            if i > 0 {
                assert(all[i] == above[i - 1] && all[i + 1] == above[i]);
            }
        }
        assert(all.last() == above.last());
    }
}

/// The staged files are the lines that git printed, in order, but for those without
/// anything other than white space.
pub proof fn law_every_written_line_is_a_file(lines: Seq<Seq<char>>)
    ensures
        lists::selects(
            written_lines(lines, lines.len()),
            |i: int| lines[i],
            |i: int| exists|k: int| 0 <= k < lines[i].len() && !text::is_space(#[trigger] lines[i][k]),
            lines.len(),
        ),
{
    lemma_written_lines(lines, lines.len());
}

proof fn lemma_written_lines(lines: Seq<Seq<char>>, n: nat)
    requires
        n <= lines.len(),
    ensures
        lists::selects(
            written_lines(lines, n),
            |i: int| lines[i],
            |i: int| exists|k: int| 0 <= k < lines[i].len() && !text::is_space(#[trigger] lines[i][k]),
            n,
        ),
    decreases n,
{
    let value = |i: int| lines[i];
    let keep = |i: int|
        exists|k: int| 0 <= k < lines[i].len() && !text::is_space(#[trigger] lines[i][k]);
    if n == 0 {
        lists::lemma_selects_none(value, keep);
    } else {
        let m = (n - 1) as nat;
        lemma_written_lines(lines, m);
        lists::lemma_selects_next(written_lines(lines, m), value, keep, m);
        text::law_trimming_takes_white_space_off(lines[m as int]);
        let line = lines[m as int];
        let (a, b) = text::trim_bounds(line);
        if text::trimmed(line).len() > 0 {
            assert(!text::is_space(line[a]));
            assert(keep(m as int));
        } else if keep(m as int) {
            let k = choose|k: int| 0 <= k < line.len() && !text::is_space(#[trigger] line[k]);
            assert(false);
        }
    }
}

/// The first mark is the one with none before it.
pub proof fn law_the_first_mark_counts(marks: Seq<bool>, i: int, k: int)
    requires
        first_true(marks, i),
        0 <= k < marks.len(),
        marks[k],
    ensures
        0 <= i <= k,
        marks[i],
{
}

} // verus!
