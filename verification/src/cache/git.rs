//! Clones of upstream repositories, one per repository and revision.
//!
//! An entry lives at `<project>/.keel/cache/<kind>/<key>/`: the clone and, beside
//! it, a record of the commit that it stands at.
use crate::paths;
use crate::paths::join_path;
use crate::text;
use crate::text::{concat, concat3};
use vstd::prelude::*;

verus! {

#[derive(Debug, PartialEq, Eq)]
pub enum CacheError {
    /// The repository names no revision.
    MissingRev { repo: String },
    Io { path: String, message: String },
    CloneFailed { repo: String, rev: String, message: String },
    GitFailed(String),
}

/// What a [`CacheError`] says.
pub ghost enum CacheFault {
    MissingRev { repo: Seq<char> },
    Io { path: Seq<char>, message: Seq<char> },
    CloneFailed { repo: Seq<char>, rev: Seq<char>, message: Seq<char> },
    GitFailed(Seq<char>),
}

impl View for CacheError {
    type V = CacheFault;

    open spec fn view(&self) -> CacheFault {
        match self {
            CacheError::MissingRev { repo } => CacheFault::MissingRev { repo: repo@ },
            CacheError::Io { path, message } => CacheFault::Io { path: path@, message: message@ },
            CacheError::CloneFailed { repo, rev, message } => CacheFault::CloneFailed {
                repo: repo@,
                rev: rev@,
                message: message@,
            },
            CacheError::GitFailed(message) => CacheFault::GitFailed(message@),
        }
    }
}

/// Who an entry is kept for.
#[derive(Debug, Clone, Copy, PartialEq, Eq, Structural)]
pub enum CacheKind {
    Hooks,
    Agents,
}

impl CacheKind {
    /// The directory of the kind.
    pub open spec fn segment(self) -> Seq<char> {
        match self {
            CacheKind::Hooks => "hooks"@,
            CacheKind::Agents => "agents"@,
        }
    }

    fn as_segment(self) -> (res: &'static str)
        ensures
            res@ == self.segment(),
    {
        match self {
            CacheKind::Hooks => "hooks",
            CacheKind::Agents => "agents",
        }
    }
}

/// A repository and a revision of it.
#[derive(Debug, PartialEq, Eq)]
pub struct RepoRef {
    pub repo: String,
    pub rev: String,
}

/// An entry that is ready for use.
#[derive(Debug, PartialEq, Eq)]
pub struct CachedRepo {
    /// The directory of the clone.
    pub clone_dir: String,
    /// The commit that the clone stands at.
    pub resolved_sha: String,
}

/// What is recorded beside a clone.
#[derive(Debug, PartialEq, Eq)]
pub struct CacheMeta {
    pub repo: String,
    pub rev: String,
    pub resolved_sha: String,
}

// ---------------------------------------------------------------------------
// Places
// ---------------------------------------------------------------------------
/// Where the entries of a kind are kept.
pub open spec fn root_of(project_root: Seq<char>, kind: CacheKind) -> Seq<char> {
    paths::joined_path(
        paths::joined_path(paths::joined_path(project_root, ".keel"@), "cache"@),
        kind.segment(),
    )
}

/// Where the entries of a kind are kept.
pub fn cache_root(project_root: &str, kind: CacheKind) -> (res: String)
    ensures
        res@ == root_of(project_root@, kind),
{
    let keel = join_path(project_root, ".keel");
    let cache = join_path(keel.as_str(), "cache");
    join_path(cache.as_str(), kind.as_segment())
}

/// Whether a character stands as it is in a slug.
pub open spec fn plain_char(c: char) -> bool {
    'a' <= c <= 'z' || 'A' <= c <= 'Z' || '0' <= c <= '9' || c == '.' || c == '-'
}

fn is_plain(c: char) -> (res: bool)
    ensures
        res == plain_char(c),
{
    ('a' <= c && c <= 'z') || ('A' <= c && c <= 'Z') || ('0' <= c && c <= '9') || c == '.' || c
        == '-'
}

/// The first `n` characters of `s` with each run of others written `_`.
pub open spec fn squeezed(s: Seq<char>, n: nat) -> Seq<char>
    decreases n,
{
    if n == 0 {
        seq![]
    } else {
        let before = squeezed(s, (n - 1) as nat);
        if plain_char(s[n - 1]) {
            before.push(s[n - 1])
        } else if before.len() > 0 && before.last() == '_' {
            before
        } else {
            before.push('_')
        }
    }
}

/// `s` as a part of a path segment: runs of other characters become one `_`, and
/// none stands at an end.
pub open spec fn slug_of(s: Seq<char>) -> Seq<char> {
    text::trim_end_char(text::trim_start_char(squeezed(s, s.len()), '_'), '_')
}

fn slug(s: &str) -> (res: String)
    ensures
        res@ == slug_of(s@),
{
    let chars = text::to_chars(s);
    let mut out = String::new();
    let mut last_underscore = false;
    let mut i: usize = 0;
    assert(out@ =~= squeezed(s@, 0));
    while i < chars.len()
        invariant
            i <= chars@.len(),
            chars@ == s@,
            out@ == squeezed(s@, i as nat),
            last_underscore == (out@.len() > 0 && out@.last() == '_'),
        decreases chars@.len() - i,
    {
        let c = chars[i];
        if is_plain(c) {
            out.push(c);
            last_underscore = false;
        } else if !last_underscore {
            out.push('_');
            last_underscore = true;
        }
        i += 1;
    }
    let front = text::trim_start_matches(out.as_str(), '_');
    text::trim_end_matches(front.as_str(), '_')
}

/// What joins the two slugs of a key. A revision without a hyphen follows the last
/// hyphen of the key; any other follows a doubled underscore, which no slug holds.
pub open spec fn joint_of(rev: Seq<char>) -> Seq<char> {
    if rev.contains('-') {
        "__"@
    } else {
        "-"@
    }
}

/// Two slugs as one.
pub open spec fn joined_slugs(repo: Seq<char>, rev: Seq<char>) -> Seq<char> {
    repo + joint_of(rev) + rev
}

/// The directory name of a repository at a revision.
pub open spec fn key_of(repo: Seq<char>, rev: Seq<char>) -> Seq<char> {
    text::first_chars(joined_slugs(slug_of(repo), slug_of(rev)), 200)
}

fn joint(rev: &str) -> (res: &'static str)
    ensures
        res@ == joint_of(rev@),
{
    if text::has_char(rev, '-') {
        "__"
    } else {
        "-"
    }
}

/// The directory name of a repository at a revision: both as slugs, at most two
/// hundred characters.
pub fn cache_key(repo: &str, rev: &str) -> (res: String)
    ensures
        res@ == key_of(repo@, rev@),
{
    let a = slug(repo);
    let b = slug(rev);
    let key = concat3(a.as_str(), joint(b.as_str()), b.as_str());
    text::take_chars(key.as_str(), 200)
}

/// Whether `s` is made of characters that a slug may hold.
pub open spec fn slug_chars(s: Seq<char>) -> bool {
    forall|i: int| 0 <= i < s.len() ==> plain_char(#[trigger] s[i]) || s[i] == '_'
}

proof fn lemma_squeezed(s: Seq<char>, n: nat)
    requires
        n <= s.len(),
    ensures
        slug_chars(squeezed(s, n)),
    decreases n,
{
    if n > 0 {
        lemma_squeezed(s, (n - 1) as nat);
    }
}

proof fn lemma_trim_start(s: Seq<char>, c: char)
    requires
        slug_chars(s),
    ensures
        slug_chars(text::trim_start_char(s, c)),
    decreases s.len(),
{
    if s.len() > 0 && s[0] == c {
        lemma_trim_start(s.drop_first(), c);
    }
}

proof fn lemma_trim_end(s: Seq<char>, c: char)
    requires
        slug_chars(s),
    ensures
        slug_chars(text::trim_end_char(s, c)),
    decreases s.len(),
{
    if s.len() > 0 && s.last() == c {
        lemma_trim_end(s.drop_last(), c);
    }
}

proof fn lemma_slug(s: Seq<char>)
    ensures
        slug_chars(slug_of(s)),
{
    lemma_squeezed(s, s.len());
    lemma_trim_start(squeezed(s, s.len()), '_');
    lemma_trim_end(text::trim_start_char(squeezed(s, s.len()), '_'), '_');
}

proof fn lemma_ascii_bytes(s: Seq<char>)
    requires
        slug_chars(s),
    ensures
        text::utf8_len(s) == s.len(),
    decreases s.len(),
{
    if s.len() > 0 {
        let front = s.drop_last();
        lemma_ascii_bytes(front);
        assert(s =~= front + seq![s.last()]);
        text::lemma_utf8_len_concat(front, seq![s.last()]);
        text::lemma_utf8_len_ascii(s.last());
    } else {
        assert(s =~= Seq::<char>::empty());
    }
}

/// A key is a path segment: letters, digits, `.`, `-` and `_`, at most two hundred
/// bytes of them.
pub proof fn law_keys_are_path_segments(repo: Seq<char>, rev: Seq<char>)
    ensures
        slug_chars(key_of(repo, rev)),
        text::utf8_len(key_of(repo, rev)) <= 200,
        !key_of(repo, rev).contains('/'),
{
    lemma_slug(repo);
    lemma_slug(rev);
    reveal_strlit("-");
    reveal_strlit("__");
    let whole = joined_slugs(slug_of(repo), slug_of(rev));
    assert(slug_chars(whole));
    lemma_ascii_bytes(key_of(repo, rev));
}

/// Whether `s` has no underscore beside another.
pub open spec fn single_underscores(s: Seq<char>) -> bool {
    forall|i: int| 0 <= i < s.len() - 1 ==> !((#[trigger] s[i]) == '_' && s[i + 1] == '_')
}

/// Whether `s` has no underscore beside another and none at an end.
pub open spec fn is_slug(s: Seq<char>) -> bool {
    &&& single_underscores(s)
    &&& s.len() > 0 ==> s[0] != '_' && s.last() != '_'
}

proof fn lemma_squeezed_singles(s: Seq<char>, n: nat)
    requires
        n <= s.len(),
    ensures
        single_underscores(squeezed(s, n)),
    decreases n,
{
    if n > 0 {
        lemma_squeezed_singles(s, (n - 1) as nat);
        let before = squeezed(s, (n - 1) as nat);
        let after = squeezed(s, n);
        assert forall|i: int| 0 <= i < after.len() - 1 implies !((#[trigger] after[i]) == '_'
            && after[i + 1] == '_') by {
            if i + 1 < before.len() {
                assert(after[i] == before[i] && after[i + 1] == before[i + 1]);
            }
        }
    }
}

proof fn lemma_trim_start_singles(s: Seq<char>)
    requires
        single_underscores(s),
    ensures
        single_underscores(text::trim_start_char(s, '_')),
        text::trim_start_char(s, '_').len() > 0 ==> text::trim_start_char(s, '_')[0] != '_',
    decreases s.len(),
{
    if s.len() > 0 && s[0] == '_' {
        let rest = s.drop_first();
        assert forall|i: int| 0 <= i < rest.len() - 1 implies !((#[trigger] rest[i]) == '_'
            && rest[i + 1] == '_') by {
            assert(rest[i] == s[i + 1]);
        }
        lemma_trim_start_singles(rest);
    }
}

proof fn lemma_trim_end_singles(s: Seq<char>)
    requires
        single_underscores(s),
        s.len() > 0 ==> s[0] != '_',
    ensures
        is_slug(text::trim_end_char(s, '_')),
    decreases s.len(),
{
    if s.len() > 0 && s.last() == '_' {
        let rest = s.drop_last();
        assert forall|i: int| 0 <= i < rest.len() - 1 implies !((#[trigger] rest[i]) == '_'
            && rest[i + 1] == '_') by {
            assert(rest[i] == s[i]);
        }
        lemma_trim_end_singles(rest);
    }
}

proof fn lemma_is_slug(s: Seq<char>)
    ensures
        is_slug(slug_of(s)),
{
    lemma_squeezed_singles(s, s.len());
    lemma_trim_start_singles(squeezed(s, s.len()));
    lemma_trim_end_singles(text::trim_start_char(squeezed(s, s.len()), '_'));
}

/// A doubled underscore stands in joined slugs at the joint alone, and only where
/// the revision holds a hyphen.
proof fn lemma_doubled(repo: Seq<char>, rev: Seq<char>, i: int)
    requires
        is_slug(repo),
        is_slug(rev),
        0 <= i < joined_slugs(repo, rev).len() - 1,
        joined_slugs(repo, rev)[i] == '_',
        joined_slugs(repo, rev)[i + 1] == '_',
    ensures
        i == repo.len(),
        rev.contains('-'),
{
    reveal_strlit("-");
    reveal_strlit("__");
    let whole = joined_slugs(repo, rev);
    let joint = joint_of(rev);
    if i + 1 < repo.len() {
        assert(whole[i] == repo[i] && whole[i + 1] == repo[i + 1]);
    } else if i + 1 == repo.len() {
        assert(whole[i] == repo.last());
    } else if i >= repo.len() + joint.len() {
        let k = i - repo.len() - joint.len();
        assert(whole[i] == rev[k] && whole[i + 1] == rev[k + 1]);
    } else if i == repo.len() + joint.len() - 1 {
        assert(whole[i + 1] == rev[0]);
    }
}

/// The slugs can be read off a key: no two pairs of them are joined alike.
proof fn lemma_joint(a: Seq<char>, b: Seq<char>, c: Seq<char>, d: Seq<char>)
    requires
        is_slug(a),
        is_slug(b),
        is_slug(c),
        is_slug(d),
        joined_slugs(a, b) == joined_slugs(c, d),
    ensures
        a == c,
        b == d,
{
    reveal_strlit("-");
    reveal_strlit("__");
    let whole = joined_slugs(a, b);
    let other = joined_slugs(c, d);
    if b.contains('-') {
        assert(whole[a.len() as int] == '_' && whole[a.len() as int + 1] == '_');
        lemma_doubled(c, d, a.len() as int);
    } else if d.contains('-') {
        assert(other[c.len() as int] == '_' && other[c.len() as int + 1] == '_');
        lemma_doubled(a, b, c.len() as int);
    } else {
        assert(whole[a.len() as int] == '-');
        assert(other[c.len() as int] == '-');
        if a.len() < c.len() {
            let k = c.len() - a.len() - 1;
            assert(other.len() == c.len() + 1 + d.len());
            assert(whole[c.len() as int] == b[k]);
            assert(b.contains('-'));
        }
        if c.len() < a.len() {
            let k = a.len() - c.len() - 1;
            assert(whole.len() == a.len() + 1 + b.len());
            assert(other[a.len() as int] == d[k]);
            assert(d.contains('-'));
        }
    }
    assert(a.len() == c.len());
    assert(joint_of(b) == joint_of(d));
    assert(a =~= whole.take(a.len() as int));
    assert(c =~= other.take(c.len() as int));
    let n = (a.len() + joint_of(b).len()) as int;
    assert(b =~= whole.skip(n));
    assert(d =~= other.skip(n));
}

/// Keys tell their parts apart: below the limit on their length, two keys are alike
/// only where the slugs of the repositories and those of the revisions are.
pub proof fn law_keys_tell_their_parts_apart(
    repo: Seq<char>,
    rev: Seq<char>,
    other_repo: Seq<char>,
    other_rev: Seq<char>,
)
    requires
        key_of(repo, rev) == key_of(other_repo, other_rev),
        joined_slugs(slug_of(repo), slug_of(rev)).len() <= 200,
        joined_slugs(slug_of(other_repo), slug_of(other_rev)).len() <= 200,
    ensures
        slug_of(repo) == slug_of(other_repo),
        slug_of(rev) == slug_of(other_rev),
{
    lemma_is_slug(repo);
    lemma_is_slug(rev);
    lemma_is_slug(other_repo);
    lemma_is_slug(other_rev);
    lemma_joint(slug_of(repo), slug_of(rev), slug_of(other_repo), slug_of(other_rev));
}

/// The two kinds never share a directory.
pub proof fn law_kinds_are_apart(project_root: Seq<char>)
    ensures
        root_of(project_root, CacheKind::Hooks) != root_of(project_root, CacheKind::Agents),
{
    reveal_strlit("hooks");
    reveal_strlit("agents");
    let base = paths::joined_path(paths::joined_path(project_root, ".keel"@), "cache"@);
    let a = root_of(project_root, CacheKind::Hooks);
    let b = root_of(project_root, CacheKind::Agents);
    assert(a.last() == 's');
    assert(b.last() == 's');
    assert(a[a.len() - 2] == 'k');
    assert(b[b.len() - 2] == 't');
}

/// The paths of an entry.
#[derive(Debug, PartialEq, Eq)]
pub struct EntryPaths {
    pub entry_dir: String,
    pub clone_dir: String,
    pub meta_path: String,
}

/// Where the entry of a repository lives.
pub open spec fn entry_dir_of(project_root: Seq<char>, repo: RepoRef, kind: CacheKind) -> Seq<char> {
    paths::joined_path(root_of(project_root, kind), key_of(repo.repo@, repo.rev@))
}

/// Where the entry of a repository lives; fails for one that names no revision.
pub fn entry_paths(project_root: &str, repo: &RepoRef, kind: CacheKind) -> (res: Result<
    EntryPaths,
    CacheError,
>)
    ensures
        match res {
            Ok(p) => {
                let dir = entry_dir_of(project_root@, *repo, kind);
                &&& repo.rev@.len() > 0
                &&& p.entry_dir@ == dir
                &&& p.clone_dir@ == paths::joined_path(dir, "clone"@)
                &&& p.meta_path@ == paths::joined_path(dir, "meta.json"@)
            },
            Err(e) => repo.rev@.len() == 0 && e@ == (CacheFault::MissingRev { repo: repo.repo@ }),
        },
{
    if repo.rev.as_str().is_empty() {
        return Err(CacheError::MissingRev { repo: repo.repo.clone() });
    }
    let key = cache_key(repo.repo.as_str(), repo.rev.as_str());
    let root = cache_root(project_root, kind);
    let entry_dir = join_path(root.as_str(), key.as_str());
    let clone_dir = join_path(entry_dir.as_str(), "clone");
    let meta_path = join_path(entry_dir.as_str(), "meta.json");
    Ok(EntryPaths { entry_dir, clone_dir, meta_path })
}

// ---------------------------------------------------------------------------
// Reuse
// ---------------------------------------------------------------------------
/// What stands at an entry.
#[derive(Debug, PartialEq, Eq)]
pub struct EntryFacts {
    pub entry_exists: bool,
    pub clone_is_dir: bool,
    pub meta_is_file: bool,
    /// The record, where it can be read as one.
    pub meta: Option<CacheMeta>,
}

/// What to do about an entry: whether to wipe it first, and whether to use the
/// clone that is there.
#[derive(Debug, PartialEq, Eq)]
pub struct CachePlan {
    pub wipe: bool,
    pub reuse: Option<CachedRepo>,
}

impl EntryFacts {
    /// Whether a clone and its record are there.
    pub open spec fn complete(&self) -> bool {
        self.clone_is_dir && self.meta_is_file
    }
}

/// Whether `meta` is the record of a clone of `repo`.
pub open spec fn records(meta: Option<CacheMeta>, repo: RepoRef) -> bool {
    meta is Some && meta->0.repo@ == repo.repo@ && meta->0.rev@ == repo.rev@
}

/// Decides about an entry. `force` wipes what is there; a clone is used where its
/// record names the repository and the revision that are asked for; one with
/// another record, or with none that can be read, is wiped; otherwise a clone is
/// made.
pub fn plan_entry(force: bool, facts: EntryFacts, repo: &RepoRef, clone_dir: &str) -> (res:
    CachePlan)
    ensures
        ({
            let wiped = force && facts.entry_exists;
            let usable = !wiped && facts.complete();
            &&& res.reuse is Some == (usable && records(facts.meta, *repo))
            &&& res.reuse matches Some(r) ==> r.clone_dir@ == clone_dir@ && r.resolved_sha
                == facts.meta->0.resolved_sha
            &&& res.wipe == (wiped || (usable && !records(facts.meta, *repo)))
        }),
{
    let EntryFacts { entry_exists, clone_is_dir, meta_is_file, meta } = facts;
    if force && entry_exists {
        return CachePlan { wipe: true, reuse: None };
    }
    if clone_is_dir && meta_is_file {
        if let Some(m) = meta {
            if *m.repo.as_str() == *repo.repo.as_str() && *m.rev.as_str() == *repo.rev.as_str() {
                let found = CachedRepo {
                    clone_dir: clone_dir.to_owned(),
                    resolved_sha: m.resolved_sha,
                };
                return CachePlan { wipe: false, reuse: Some(found) };
            }
        }
        return CachePlan { wipe: true, reuse: None };
    }
    CachePlan { wipe: false, reuse: None }
}

/// A clone that is used is one of the repository and the revision asked for, and
/// one that was recorded so is used again.
pub proof fn law_only_the_recorded_pair_is_reused(meta: CacheMeta, repo: RepoRef, asked: RepoRef)
    requires
        meta.repo@ == repo.repo@,
        meta.rev@ == repo.rev@,
    ensures
        records(Some(meta), asked) <==> repo.repo@ == asked.repo@ && repo.rev@ == asked.rev@,
{
}

/// The record of a new clone: reading it back gives the commit that was recorded.
pub fn meta_for(repo: &RepoRef, resolved_sha: &str) -> (res: CacheMeta)
    ensures
        res.repo@ == repo.repo@,
        res.rev@ == repo.rev@,
        res.resolved_sha@ == resolved_sha@,
{
    CacheMeta {
        repo: repo.repo.clone(),
        rev: repo.rev.clone(),
        resolved_sha: resolved_sha.to_owned(),
    }
}

// ---------------------------------------------------------------------------
// Cloning
// ---------------------------------------------------------------------------
/// The git runs that make a clone.
#[derive(Debug, Clone, Copy, PartialEq, Eq, Structural)]
pub enum CloneStage {
    /// The revision alone, as a tag or a branch.
    Shallow,
    /// The whole repository, for a revision that is neither.
    Full,
    /// The revision inside the whole repository.
    Checkout,
}

/// How a git run ended.
#[derive(Debug, PartialEq, Eq)]
pub enum GitEnd {
    /// It could not be started.
    NotSpawned(String),
    Succeeded,
    /// It failed, with what it said.
    Failed(String),
}

/// What follows a git run.
#[derive(Debug, PartialEq, Eq)]
pub enum CloneNext {
    Done,
    /// Remove what is at the destination, then clone the whole repository.
    CloneWhole,
    CheckOut,
    Stop(CacheError),
}

/// The arguments of the git run of a stage. `Checkout` runs inside the clone.
pub open spec fn stage_args(
    stage: CloneStage,
    repo: Seq<char>,
    rev: Seq<char>,
    dest: Seq<char>,
) -> Seq<Seq<char>> {
    match stage {
        CloneStage::Shallow => seq![
            "clone"@,
            "--depth"@,
            "1"@,
            "--branch"@,
            rev,
            repo,
            dest,
        ],
        CloneStage::Full => seq!["clone"@, repo, dest],
        CloneStage::Checkout => seq!["checkout"@, "--detach"@, rev],
    }
}

/// The arguments of the git run of a stage.
pub fn clone_args(stage: CloneStage, repo: &str, rev: &str, dest: &str) -> (res: Vec<String>)
    ensures
        res.deep_view() == stage_args(stage, repo@, rev@, dest@),
{
    let args = match stage {
        CloneStage::Shallow => vec![
            "clone".to_owned(),
            "--depth".to_owned(),
            "1".to_owned(),
            "--branch".to_owned(),
            rev.to_owned(),
            repo.to_owned(),
            dest.to_owned(),
        ],
        CloneStage::Full => vec!["clone".to_owned(), repo.to_owned(), dest.to_owned()],
        CloneStage::Checkout => vec![
            "checkout".to_owned(),
            "--detach".to_owned(),
            rev.to_owned(),
        ],
    };
    assert(args.deep_view() =~= stage_args(stage, repo@, rev@, dest@));
    args
}

/// What is said when the git run of a stage could not be started.
pub open spec fn spawn_complaint(stage: CloneStage, error: Seq<char>) -> Seq<char> {
    match stage {
        CloneStage::Shallow => "spawn git: "@ + error,
        CloneStage::Full => "spawn git (fallback): "@ + error,
        CloneStage::Checkout => "spawn git checkout: "@ + error,
    }
}

/// The place of a stage among the git runs of a clone.
pub open spec fn rank(stage: CloneStage) -> int {
    match stage {
        CloneStage::Shallow => 0,
        CloneStage::Full => 1,
        CloneStage::Checkout => 2,
    }
}

/// The stage that a decision leads to.
pub open spec fn stage_after(next: CloneNext) -> Option<CloneStage> {
    match next {
        CloneNext::CloneWhole => Some(CloneStage::Full),
        CloneNext::CheckOut => Some(CloneStage::Checkout),
        _ => None,
    }
}

/// Decides what follows the git run of a stage: a failed shallow clone is tried
/// again as a whole one, whose revision is then checked out; any other failure
/// ends it. The stages only go forward, so a clone takes at most three runs.
pub fn clone_next(stage: CloneStage, end: GitEnd, repo: &str, rev: &str) -> (res: CloneNext)
    ensures
        stage_after(res) matches Some(next) ==> rank(next) > rank(stage),
        match end {
            GitEnd::NotSpawned(e) => res matches CloneNext::Stop(err) && err@
                == (CacheFault::CloneFailed {
                repo: repo@,
                rev: rev@,
                message: spawn_complaint(stage, e@),
            }),
            GitEnd::Succeeded => res == if stage == CloneStage::Full {
                CloneNext::CheckOut
            } else {
                CloneNext::Done
            },
            GitEnd::Failed(said) => if stage == CloneStage::Shallow {
                res == CloneNext::CloneWhole
            } else {
                res matches CloneNext::Stop(err) && err@ == (CacheFault::CloneFailed {
                    repo: repo@,
                    rev: rev@,
                    message: text::trimmed(said@),
                })
            },
        },
{
    match end {
        GitEnd::NotSpawned(e) => {
            let message = match stage {
                CloneStage::Shallow => concat("spawn git: ", e.as_str()),
                CloneStage::Full => concat("spawn git (fallback): ", e.as_str()),
                CloneStage::Checkout => concat("spawn git checkout: ", e.as_str()),
            };
            CloneNext::Stop(
                CacheError::CloneFailed { repo: repo.to_owned(), rev: rev.to_owned(), message },
            )
        },
        GitEnd::Succeeded => match stage {
            CloneStage::Full => CloneNext::CheckOut,
            _ => CloneNext::Done,
        },
        GitEnd::Failed(said) => match stage {
            CloneStage::Shallow => CloneNext::CloneWhole,
            _ => CloneNext::Stop(
                CacheError::CloneFailed {
                    repo: repo.to_owned(),
                    rev: rev.to_owned(),
                    message: text::trim(said.as_str()),
                },
            ),
        },
    }
}

/// The commit that `git rev-parse HEAD` printed, or why it did not.
pub fn resolved_sha(end: GitEnd, stdout: &str) -> (res: Result<String, CacheError>)
    ensures
        match end {
            GitEnd::Succeeded => res is Ok && res->Ok_0@ == text::trimmed(stdout@),
            GitEnd::NotSpawned(e) => res is Err && res->Err_0@ == CacheFault::GitFailed(
                "rev-parse: "@ + e@,
            ),
            GitEnd::Failed(said) => res is Err && res->Err_0@ == CacheFault::GitFailed(
                "rev-parse: "@ + text::trimmed(said@),
            ),
        },
{
    match end {
        GitEnd::Succeeded => Ok(text::trim(stdout)),
        GitEnd::NotSpawned(e) => Err(CacheError::GitFailed(concat("rev-parse: ", e.as_str()))),
        GitEnd::Failed(said) => {
            let message = text::trim(said.as_str());
            Err(CacheError::GitFailed(concat("rev-parse: ", message.as_str())))
        },
    }
}

/// A slug keeps every character that may stand in a path segment, in order; whatever
/// else there is becomes underscores.
pub proof fn law_slugs_keep_the_plain_characters(s: Seq<char>)
    ensures
        slug_of(s).filter(|c: char| plain_char(c)) == s.filter(|c: char| plain_char(c)),
        forall|c: char|
            plain_char(c) <==> ('a' <= c <= 'z' || 'A' <= c <= 'Z' || '0' <= c <= '9' || c == '.'
                || c == '-'),
{
    let keep = |c: char| plain_char(c);
    let all = squeezed(s, s.len());
    lemma_squeezed_keeps(s, s.len());
    assert(s.take(s.len() as int) =~= s);
    let front = text::trim_start_char(all, '_');
    lemma_trim_start_keeps(all);
    lemma_trim_end_keeps(front);
}

proof fn lemma_squeezed_keeps(s: Seq<char>, n: nat)
    requires
        n <= s.len(),
    ensures
        squeezed(s, n).filter(|c: char| plain_char(c)) == s.take(n as int).filter(
            |c: char| plain_char(c),
        ),
    decreases n,
{
    let keep = |c: char| plain_char(c);
    reveal(Seq::filter);
    if n == 0 {
        assert(s.take(0) =~= Seq::<char>::empty());
        assert(squeezed(s, 0) =~= Seq::<char>::empty());
    } else {
        let m = (n - 1) as nat;
        lemma_squeezed_keeps(s, m);
        let before = squeezed(s, m);
        assert(s.take(n as int).drop_last() =~= s.take(m as int));
        assert(before.push(s[m as int]).drop_last() =~= before);
        assert(before.push('_').drop_last() =~= before);
    }
}

proof fn lemma_trim_end_keeps(s: Seq<char>)
    ensures
        text::trim_end_char(s, '_').filter(|c: char| plain_char(c)) == s.filter(
            |c: char| plain_char(c),
        ),
    decreases s.len(),
{
    reveal(Seq::filter);
    if s.len() > 0 && s.last() == '_' {
        lemma_trim_end_keeps(s.drop_last());
    }
}

proof fn lemma_trim_start_keeps(s: Seq<char>)
    ensures
        text::trim_start_char(s, '_').filter(|c: char| plain_char(c)) == s.filter(
            |c: char| plain_char(c),
        ),
    decreases s.len(),
{
    let keep = |c: char| plain_char(c);
    if s.len() > 0 && s[0] == '_' {
        let rest = s.drop_first();
        lemma_trim_start_keeps(rest);
        let one = seq!['_'];
        assert(s =~= one + rest);
        Seq::filter_distributes_over_add(one, rest, keep);
        assert(one.filter(keep) =~= Seq::<char>::empty()) by {
            reveal(Seq::filter);
            assert(one.drop_last() =~= Seq::<char>::empty());
            assert(one.drop_last().filter(keep) =~= Seq::<char>::empty());
        }
        assert(one.filter(keep) + rest.filter(keep) =~= rest.filter(keep));
    }
}

/// The entry of a repository stands in the directory of its kind below the project's,
/// under its key.
pub proof fn law_entries_stand_below_the_project(
    project_root: Seq<char>,
    repo: RepoRef,
    kind: CacheKind,
)
    ensures
        entry_dir_of(project_root, repo, kind) == paths::joined_path(
            paths::joined_path(
                paths::joined_path(paths::joined_path(project_root, ".keel"@), "cache"@),
                if kind == CacheKind::Hooks {
                    "hooks"@
                } else {
                    "agents"@
                },
            ),
            key_of(repo.repo@, repo.rev@),
        ),
{
}

/// A clone is used again only where it and its record are both there.
pub proof fn law_entries_need_clone_and_record(facts: EntryFacts)
    ensures
        facts.complete() <==> facts.clone_is_dir && facts.meta_is_file,
        forall|repo: RepoRef| #[trigger] records(facts.meta, repo) ==> facts.meta is Some,
{
}

/// Each git run of a clone names the repository or the revision that it is for: the
/// shallow one both and the destination, the whole one the repository and the
/// destination, and the checkout the revision.
pub proof fn law_clones_name_what_they_fetch(repo: Seq<char>, rev: Seq<char>, dest: Seq<char>)
    ensures
        ({
            let shallow = stage_args(CloneStage::Shallow, repo, rev, dest);
            let full = stage_args(CloneStage::Full, repo, rev, dest);
            let checkout = stage_args(CloneStage::Checkout, repo, rev, dest);
            &&& shallow.len() == 7 && shallow[0] == "clone"@ && shallow[1] == "--depth"@
            &&& shallow[2] == "1"@ && shallow[3] == "--branch"@ && shallow[4] == rev
            &&& shallow[5] == repo && shallow[6] == dest
            &&& full.len() == 3 && full[0] == "clone"@ && full[1] == repo && full[2] == dest
            &&& checkout.len() == 3 && checkout[0] == "checkout"@ && checkout[1] == "--detach"@
            &&& checkout[2] == rev
        }),
{
}

/// The stages go forward, and the complaint about a git that does not start says which
/// one it was.
pub proof fn law_stages_go_forward(stage: CloneStage, error: Seq<char>)
    ensures
        rank(CloneStage::Shallow) < rank(CloneStage::Full) < rank(CloneStage::Checkout),
        stage_after(CloneNext::CloneWhole) == Some(CloneStage::Full),
        stage_after(CloneNext::CheckOut) == Some(CloneStage::Checkout),
        stage_after(CloneNext::Done) is None,
        stage == CloneStage::Shallow ==> spawn_complaint(stage, error) == "spawn git: "@ + error,
        stage == CloneStage::Full ==> spawn_complaint(stage, error) == "spawn git (fallback): "@
            + error,
        stage == CloneStage::Checkout ==> spawn_complaint(stage, error) == "spawn git checkout: "@
            + error,
{
}

/// An error tells what it holds.
pub proof fn law_errors_tell_what_they_hold(e: CacheError)
    ensures
        e matches CacheError::MissingRev { repo } ==> e@ == (CacheFault::MissingRev {
            repo: repo@,
        }),
        e matches CacheError::Io { path, message } ==> e@ == (CacheFault::Io {
            path: path@,
            message: message@,
        }),
        e matches CacheError::CloneFailed { repo, rev, message } ==> e@ == (CacheFault::CloneFailed {
            repo: repo@,
            rev: rev@,
            message: message@,
        }),
        e matches CacheError::GitFailed(x) ==> e@ == CacheFault::GitFailed(x@),
{
}

} // verus!
