//! The scripts under `.git/hooks` that hand over to this tool.
//!
//! Each carries a marker line, so that a hook written by hand is told apart and
//! left alone.
use crate::hooks::error;
use crate::hooks::error::HookError;
use crate::paths;
use crate::paths::join_path;
use crate::text;
use crate::text::concat3;
use crate::lists;
use vstd::prelude::*;

verus! {

/// The line that marks a script as one of ours.
pub const AMPELOS_HOOK_MARKER: &'static str = "# managed by ampelos";

/// The stages that are cleaned up when none are named.
pub fn known_stages() -> (res: Vec<&'static str>)
    ensures
        res.deep_view() == seq![
            "pre-commit"@,
            "pre-push"@,
            "commit-msg"@,
            "post-commit"@,
            "pre-merge-commit"@,
            "pre-rebase"@,
            "post-checkout"@,
            "post-merge"@,
        ],
{
    let stages = vec![
        "pre-commit",
        "pre-push",
        "commit-msg",
        "post-commit",
        "pre-merge-commit",
        "pre-rebase",
        "post-checkout",
        "post-merge",
    ];
    assert(stages.deep_view() =~= seq![
        "pre-commit"@,
        "pre-push"@,
        "commit-msg"@,
        "post-commit"@,
        "pre-merge-commit"@,
        "pre-rebase"@,
        "post-checkout"@,
        "post-merge"@,
    ]);
    stages
}

/// Where the hooks of a repository are.
pub open spec fn hooks_dir_of(repo_root: Seq<char>) -> Seq<char> {
    paths::joined_path(paths::joined_path(repo_root, ".git"@), "hooks"@)
}

/// Where the hooks of a repository are.
pub fn hooks_dir(repo_root: &str) -> (res: String)
    ensures
        res@ == hooks_dir_of(repo_root@),
{
    let git = join_path(repo_root, ".git");
    join_path(git.as_str(), "hooks")
}

/// The script of a stage.
pub open spec fn shim(stage: Seq<char>) -> Seq<char> {
    "#!/bin/sh\n# managed by ampelos\nexec ampelos hooks run "@ + stage + " \"$@\"\n"@
}

/// The script of a stage.
pub fn render_shim(stage: &str) -> (res: String)
    ensures
        res@ == shim(stage@),
{
    concat3("#!/bin/sh\n# managed by ampelos\nexec ampelos hooks run ", stage, " \"$@\"\n")
}

/// Whether a script is one of ours.
pub open spec fn ours(body: Seq<char>) -> bool {
    text::has_substring(body, AMPELOS_HOOK_MARKER@)
}

/// Whether a script is one of ours.
pub fn is_ours(body: &str) -> (res: bool)
    ensures
        res == ours(body@),
{
    text::contains(body, AMPELOS_HOOK_MARKER)
}

/// The script of every stage is recognised as ours: it can be installed again, and
/// it can be removed.
pub proof fn law_shims_are_ours(stage: Seq<char>)
    ensures
        ours(shim(stage)),
{
    reveal_strlit("#!/bin/sh\n# managed by ampelos\nexec ampelos hooks run ");
    reveal_strlit("# managed by ampelos");
    let s = shim(stage);
    let pat = AMPELOS_HOOK_MARKER@;
    assert(s.subrange(10, (10 + pat.len()) as int) =~= pat);
    assert(text::occurs_at(s, pat, 10));
}

/// A script to write.
#[derive(Debug, PartialEq, Eq)]
pub struct Shim {
    pub path: String,
    pub body: String,
}

/// The script to write for a stage, given what stands in its place. Fails where
/// that is not one of ours.
pub fn install_one(hooks_dir: &str, stage: &str, existing: Option<&str>) -> (res: Result<
    Shim,
    HookError,
>)
    ensures
        ({
            let path = paths::joined_path(hooks_dir@, stage@);
            let foreign = existing is Some && !ours(existing->0@);
            match res {
                Ok(s) => !foreign && s.path@ == path && s.body@ == shim(stage@),
                Err(e) => foreign && e@ == (error::HookFault::HookExists { path }),
            }
        }),
{
    let path = join_path(hooks_dir, stage);
    if let Some(body) = existing {
        if !is_ours(body) {
            return Err(HookError::HookExists { path });
        }
    }
    Ok(Shim { path, body: render_shim(stage) })
}

/// The stages of the first `n` that have a script of ours.
pub open spec fn removable(
    hooks_dir: Seq<char>,
    stages: Seq<Seq<char>>,
    bodies: Seq<Option<Seq<char>>>,
    n: nat,
) -> Seq<Seq<char>>
    decreases n,
{
    if n == 0 {
        seq![]
    } else {
        let before = removable(hooks_dir, stages, bodies, (n - 1) as nat);
        match bodies[n - 1] {
            Some(body) => if ours(body) {
                before.push(paths::joined_path(hooks_dir, stages[n - 1]))
            } else {
                before
            },
            None => before,
        }
    }
}

/// The scripts to remove, given what stands in place of each stage. A stage
/// without a script, or with one that is not ours, is left alone.
pub fn uninstall(hooks_dir: &str, stages: &Vec<String>, bodies: &Vec<Option<String>>) -> (res: Vec<
    String,
>)
    requires
        bodies@.len() == stages@.len(),
    ensures
        res.deep_view() == removable(
            hooks_dir@,
            stages.deep_view(),
            bodies.deep_view(),
            stages@.len(),
        ),
{
    let ghost names = stages.deep_view();
    let ghost texts = bodies.deep_view();
    let mut out: Vec<String> = Vec::new();
    let mut i: usize = 0;
    assert(out.deep_view() =~= removable(hooks_dir@, names, texts, 0));
    while i < stages.len()
        invariant
            i <= stages@.len() == bodies@.len(),
            names == stages.deep_view(),
            texts == bodies.deep_view(),
            out.deep_view() == removable(hooks_dir@, names, texts, i as nat),
        decreases stages@.len() - i,
    {
        let ghost before = out.deep_view();
        assert(names[i as int] == stages@[i as int]@);
        assert(texts[i as int] == bodies@[i as int].deep_view());
        if let Some(body) = &bodies[i] {
            if is_ours(body.as_str()) {
                out.push(join_path(hooks_dir, stages[i].as_str()));
                assert(out.deep_view() =~= before.push(
                    paths::joined_path(hooks_dir@, names[i as int]),
                ));
            }
        }
        i += 1;
    }
    out
}

/// What is removed are the scripts of ours, of every stage that has one, in order.
pub proof fn law_only_our_scripts_are_removed(
    hooks_dir: Seq<char>,
    stages: Seq<Seq<char>>,
    bodies: Seq<Option<Seq<char>>>,
)
    requires
        bodies.len() == stages.len(),
    ensures
        lists::selects(
            removable(hooks_dir, stages, bodies, stages.len()),
            |i: int| paths::joined_path(hooks_dir, stages[i]),
            |i: int| bodies[i] is Some && text::has_substring(bodies[i]->0, AMPELOS_HOOK_MARKER@),
            stages.len(),
        ),
{
    lemma_removable(hooks_dir, stages, bodies, stages.len());
}

proof fn lemma_removable(
    hooks_dir: Seq<char>,
    stages: Seq<Seq<char>>,
    bodies: Seq<Option<Seq<char>>>,
    n: nat,
)
    requires
        n <= stages.len(),
        bodies.len() == stages.len(),
    ensures
        lists::selects(
            removable(hooks_dir, stages, bodies, n),
            |i: int| paths::joined_path(hooks_dir, stages[i]),
            |i: int| bodies[i] is Some && text::has_substring(bodies[i]->0, AMPELOS_HOOK_MARKER@),
            n,
        ),
    decreases n,
{
    let value = |i: int| paths::joined_path(hooks_dir, stages[i]);
    let keep = |i: int|
        bodies[i] is Some && text::has_substring(bodies[i]->0, AMPELOS_HOOK_MARKER@);
    if n == 0 {
        lists::lemma_selects_none(value, keep);
    } else {
        let m = (n - 1) as nat;
        lemma_removable(hooks_dir, stages, bodies, m);
        lists::lemma_selects_next(removable(hooks_dir, stages, bodies, m), value, keep, m);
    }
}

/// The script of a stage is run by a shell, and hands its stage and its arguments over.
pub proof fn law_shims_name_their_stage(stage: Seq<char>)
    ensures
        "#!/bin/sh\n"@.is_prefix_of(shim(stage)),
        text::has_substring(shim(stage), "exec ampelos hooks run "@ + stage + " \"$@\"\n"@),
        forall|other: Seq<char>| shim(other) == shim(stage) ==> other == stage,
{
    let head = "#!/bin/sh\n# managed by ampelos\nexec ampelos hooks run "@;
    let tail = " \"$@\"\n"@;
    reveal_strlit("#!/bin/sh\n# managed by ampelos\nexec ampelos hooks run ");
    reveal_strlit("#!/bin/sh\n");
    reveal_strlit("exec ampelos hooks run ");
    let s = shim(stage);
    let call = "exec ampelos hooks run "@ + stage + tail;
    let at = head.len() - "exec ampelos hooks run "@.len();
    assert("#!/bin/sh\n"@ =~= s.take("#!/bin/sh\n"@.len() as int));
    assert(s.subrange(at, at + call.len()) =~= call) by {
        assert(head.skip(at) =~= "exec ampelos hooks run "@);
        assert forall|k: int| 0 <= k < call.len() implies s.subrange(at, at + call.len())[k]
            == call[k] by {
            if k < "exec ampelos hooks run "@.len() {
                assert(head.skip(at)[k] == head[at + k]);
            }
        }
    }
    assert(text::occurs_at(s, call, at));
    assert forall|other: Seq<char>| shim(other) == shim(stage) implies other == stage by {
        assert(shim(other).len() == head.len() + other.len() + tail.len());
        assert(shim(stage).len() == head.len() + stage.len() + tail.len());
        assert forall|k: int| 0 <= k < stage.len() implies other[k] == stage[k] by {
            assert(shim(other)[head.len() + k] == other[k]);
            assert(shim(stage)[head.len() + k] == stage[k]);
        }
        assert(other =~= stage);
    }
}

/// The hooks of a repository stand in its `.git`.
pub proof fn law_hooks_stand_in_the_repository(root: Seq<char>)
    requires
        root.len() > 0,
        root.last() != '/',
    ensures
        hooks_dir_of(root) == root + seq!['/'] + ".git"@ + seq!['/'] + "hooks"@,
{
    reveal_strlit(".git");
    reveal_strlit("hooks");
    let dir = paths::joined_path(root, ".git"@);
    paths::law_joined_paths_hold_both(root, ".git"@);
    assert(dir =~= root + seq!['/'] + ".git"@) by {
        assert(dir.take(root.len() as int) + seq![dir[root.len() as int]] + dir.skip(
            root.len() as int + 1,
        ) =~= dir);
    }
    let hooks = hooks_dir_of(root);
    paths::law_joined_paths_hold_both(dir, "hooks"@);
    assert(dir.last() == 't');
    assert(hooks =~= dir + seq!['/'] + "hooks"@) by {
        assert(hooks.take(dir.len() as int) + seq![hooks[dir.len() as int]] + hooks.skip(
            dir.len() as int + 1,
        ) =~= hooks);
    }
}

} // verus!
