//! Git worktrees: what they are called and where they stand.
use crate::container::devcontainer::digest;
use crate::container::devcontainer::digest::sha256;
use crate::paths;
use crate::text;
use crate::textmap::TextMap;
use vstd::prelude::*;

verus! {

/// A worktree as git lists it.
#[derive(Debug, PartialEq, Eq)]
pub struct WorktreeListEntry {
    pub path: String,
    pub branch: Option<String>,
    pub detached: bool,
}

/// What a [`WorktreeListEntry`] says.
pub ghost struct ListedModel {
    pub path: Seq<char>,
    pub branch: Option<Seq<char>>,
    pub detached: bool,
}

impl DeepView for WorktreeListEntry {
    type V = ListedModel;

    open spec fn deep_view(&self) -> ListedModel {
        ListedModel {
            path: self.path@,
            branch: self.branch.deep_view(),
            detached: self.detached,
        }
    }
}

/// The worktrees once a line of `git worktree list --porcelain` is in: one begins
/// with its path, and says then which branch it has checked out, or that it has
/// none.
pub open spec fn with_line(entries: Seq<ListedModel>, line: Seq<char>) -> Seq<ListedModel> {
    match text::without_prefix(line, "worktree "@) {
        Some(path) => entries.push(ListedModel { path, branch: None, detached: false }),
        None => if entries.len() == 0 {
            entries
        } else {
            let last = entries.last();
            match text::without_prefix(line, "branch refs/heads/"@) {
                Some(branch) => entries.drop_last().push(
                    ListedModel { branch: Some(branch), ..last },
                ),
                None => if line == "detached"@ {
                    entries.drop_last().push(ListedModel { detached: true, ..last })
                } else {
                    entries
                },
            }
        },
    }
}

/// The worktrees that the first `n` lines list.
pub open spec fn listed(lines: Seq<Seq<char>>, n: nat) -> Seq<ListedModel>
    decreases n,
{
    if n == 0 {
        seq![]
    } else {
        with_line(listed(lines, (n - 1) as nat), lines[n - 1])
    }
}

fn take_line(entries: &mut Vec<WorktreeListEntry>, line: &str)
    ensures
        final(entries).deep_view() == with_line(old(entries).deep_view(), line@),
{
    let ghost before = entries.deep_view();
    assert(entries@.len() == before.len());
    if let Some(path) = text::strip_prefix(line, "worktree ") {
        entries.push(WorktreeListEntry { path, branch: None, detached: false });
        assert(entries.deep_view() =~= with_line(before, line@));
        return ;
    }
    if entries.len() == 0 {
        return ;
    }
    if let Some(branch) = text::strip_prefix(line, "branch refs/heads/") {
        if let Some(last) = entries.pop() {
            let WorktreeListEntry { path, branch: _, detached } = last;
            entries.push(WorktreeListEntry { path, branch: Some(branch), detached });
        }
    } else if *line == *"detached" {
        if let Some(last) = entries.pop() {
            let WorktreeListEntry { path, branch, detached: _ } = last;
            entries.push(WorktreeListEntry { path, branch, detached: true });
        }
    }
    assert(entries.deep_view() =~= with_line(before, line@));
}

/// The worktrees that `git worktree list --porcelain` printed.
pub fn parse_worktrees(printed: &str) -> (res: Vec<WorktreeListEntry>)
    ensures
        res.deep_view() == listed(text::lines_of(printed@), text::lines_of(printed@).len()),
{
    let lines = text::lines(printed);
    let ghost all = lines.deep_view();
    let mut entries: Vec<WorktreeListEntry> = Vec::new();
    let mut i: usize = 0;
    assert(entries.deep_view() =~= listed(all, 0));
    while i < lines.len()
        invariant
            i <= lines@.len(),
            all == lines.deep_view(),
            entries.deep_view() == listed(all, i as nat),
        decreases lines@.len() - i,
    {
        assert(all[i as int] == lines@[i as int]@);
        take_line(&mut entries, lines[i].as_str());
        i += 1;
    }
    entries
}

/// What the identity of a worktree comes from.
#[derive(Debug, Clone, Copy, PartialEq, Eq, Structural)]
pub enum BaseRef {
    Branch,
    DetachedSha,
    WorktreeDir,
    /// The project is not a git repository.
    NoRepository,
}

/// The identity of a worktree.
#[derive(Debug, PartialEq, Eq)]
pub struct Identity {
    pub slug: String,
    pub base_ref: BaseRef,
    /// The branch, hash or directory.
    pub base_label: String,
    pub offset: u32,
}

impl Identity {
    /// Whether the worktree is told from others.
    pub open spec fn isolated(&self) -> bool {
        self.slug@.len() > 0
    }

    /// Whether the worktree is told from others.
    pub fn is_isolated(&self) -> (res: bool)
        ensures
            res == self.isolated(),
    {
        !self.slug.as_str().is_empty()
    }
}

/// A capital letter as a small one; other characters as they are.
pub open spec fn lower_char(c: char) -> char {
    if 'A' <= c <= 'Z' {
        (c as int + 32) as char
    } else {
        c
    }
}

/// Whether a character is a small letter or a digit.
pub open spec fn slug_char(c: char) -> bool {
    'a' <= c <= 'z' || '0' <= c <= '9'
}

fn to_lower(c: char) -> (res: char)
    ensures
        res == lower_char(c),
{
    if 'A' <= c && c <= 'Z' {
        ((c as u8) + 32) as char
    } else {
        c
    }
}

/// The first `n` characters of `s` in small letters, with each run of other
/// characters written `-`.
pub open spec fn dashed(s: Seq<char>, n: nat) -> Seq<char>
    decreases n,
{
    if n == 0 {
        seq![]
    } else {
        let before = dashed(s, (n - 1) as nat);
        let c = lower_char(s[n - 1]);
        if slug_char(c) {
            before.push(c)
        } else if before.len() > 0 && before.last() == '-' {
            before
        } else {
            before.push('-')
        }
    }
}

/// A name as a slug: small letters and digits, other runs as one `-`, none at an
/// end.
pub open spec fn slug_of(name: Seq<char>) -> Seq<char> {
    text::trim_end_char(text::trim_start_char(dashed(name, name.len()), '-'), '-')
}

/// A name as a slug.
pub fn slugify(name: &str) -> (res: String)
    ensures
        res@ == slug_of(name@),
{
    let chars = text::to_chars(name);
    let mut out = String::new();
    let mut last_dash = false;
    let mut i: usize = 0;
    assert(out@ =~= dashed(name@, 0));
    while i < chars.len()
        invariant
            i <= chars@.len(),
            chars@ == name@,
            out@ == dashed(name@, i as nat),
            last_dash == (out@.len() > 0 && out@.last() == '-'),
        decreases chars@.len() - i,
    {
        let c = to_lower(chars[i]);
        if ('a' <= c && c <= 'z') || ('0' <= c && c <= '9') {
            out.push(c);
            last_dash = false;
        } else if !last_dash {
            out.push('-');
            last_dash = true;
        }
        i += 1;
    }
    let front = text::trim_start_matches(out.as_str(), '-');
    text::trim_end_matches(front.as_str(), '-')
}

/// Whether `s` is made of small letters, digits and dashes.
pub open spec fn slug_text(s: Seq<char>) -> bool {
    forall|i: int| 0 <= i < s.len() ==> slug_char(#[trigger] s[i]) || s[i] == '-'
}

proof fn lemma_dashed(s: Seq<char>, n: nat)
    requires
        n <= s.len(),
    ensures
        slug_text(dashed(s, n)),
    decreases n,
{
    if n > 0 {
        lemma_dashed(s, (n - 1) as nat);
    }
}

proof fn lemma_trim_front(s: Seq<char>)
    requires
        slug_text(s),
    ensures
        slug_text(text::trim_start_char(s, '-')),
        text::trim_start_char(s, '-').len() > 0 ==> text::trim_start_char(s, '-')[0] != '-',
    decreases s.len(),
{
    if s.len() > 0 && s[0] == '-' {
        lemma_trim_front(s.drop_first());
    }
}

proof fn lemma_trim_back(s: Seq<char>)
    requires
        slug_text(s),
        s.len() > 0 ==> s[0] != '-',
    ensures
        slug_text(text::trim_end_char(s, '-')),
        text::trim_end_char(s, '-').len() > 0 ==> text::trim_end_char(s, '-')[0] != '-'
            && text::trim_end_char(s, '-').last() != '-',
    decreases s.len(),
{
    if s.len() > 0 && s.last() == '-' {
        lemma_trim_back(s.drop_last());
    }
}

/// A slug holds small letters, digits and dashes, and no dash at an end, so that it
/// can stand in the name of a container.
pub proof fn law_slugs_are_names(name: Seq<char>)
    ensures
        slug_text(slug_of(name)),
        slug_of(name).len() > 0 ==> slug_char(slug_of(name)[0]) && slug_char(
            slug_of(name).last(),
        ),
{
    let all = dashed(name, name.len());
    lemma_dashed(name, name.len());
    lemma_trim_front(all);
    lemma_trim_back(text::trim_start_char(all, '-'));
}

/// What a worktree is called: after its branch, or after its directory where it has
/// none checked out.
pub open spec fn entry_slug(entry: WorktreeListEntry) -> Seq<char> {
    match entry.branch {
        Some(branch) => slug_of(branch@),
        None => if entry.detached {
            match paths::file_name_of(entry.path@) {
                Some(dir) => slug_of(dir),
                None => slug_of(""@),
            }
        } else {
            ""@
        },
    }
}

/// What a worktree is called.
pub fn derive_slug(entry: &WorktreeListEntry) -> (res: String)
    ensures
        res@ == entry_slug(*entry),
{
    if let Some(branch) = &entry.branch {
        return slugify(branch.as_str());
    }
    if entry.detached {
        return match paths::file_name(entry.path.as_str()) {
            Some(dir) => slugify(dir.as_str()),
            None => slugify(""),
        };
    }
    "".to_owned()
}

// ---------------------------------------------------------------------------
// Offsets
// ---------------------------------------------------------------------------
/// The number that four bytes write, the highest first.
pub open spec fn number_of(bytes: Seq<u8>) -> nat {
    (bytes[0] as nat) * 16_777_216 + (bytes[1] as nat) * 65_536 + (bytes[2] as nat) * 256 + (
    bytes[3] as nat)
}

/// The offset that a hash gives: the number in its first four bytes, below the
/// modulus.
pub fn hash_offset(hash: &Vec<u8>, modulus: u32) -> (res: u32)
    requires
        hash@.len() >= 4,
        modulus > 0,
    ensures
        res == number_of(hash@) % (modulus as nat),
{
    let n: u32 = (hash[0] as u32) * 16_777_216 + (hash[1] as u32) * 65_536 + (hash[2] as u32) * 256
        + (hash[3] as u32);
    n % modulus
}

/// The offset of a slug: the pinned one, or else one from the hash of the seed and
/// the slug. A worktree without a slug has none, nor has any where the modulus
/// leaves none.
pub open spec fn offset_of(
    slug: Seq<char>,
    pins: Map<Seq<char>, u32>,
    modulus: u32,
    seed: Seq<char>,
) -> u32 {
    if pins.contains_key(slug) {
        pins[slug]
    } else if slug.len() == 0 || modulus == 0 {
        0
    } else {
        (number_of(digest::sha256_of(vstd::utf8::encode_utf8(seed + slug))) % (
        modulus as nat)) as u32
    }
}

/// The offset of a slug.
pub fn offset_for(slug: &str, pins: &TextMap<u32>, modulus: u32, seed: &str) -> (res: u32)
    ensures
        res == offset_of(slug@, pins@, modulus, seed@),
{
    if let Some(pinned) = pins.get(slug) {
        return *pinned;
    }
    if slug.is_empty() || modulus == 0 {
        return 0;
    }
    let salted = text::concat(seed, slug);
    let hash = sha256(salted.as_str().as_bytes());
    hash_offset(&hash, modulus)
}

/// A pin wins over the hash, and an offset that is not pinned stays below the
/// modulus.
pub proof fn law_offsets_stay_below_the_modulus(
    slug: Seq<char>,
    pins: Map<Seq<char>, u32>,
    modulus: u32,
    seed: Seq<char>,
)
    requires
        modulus > 0,
    ensures
        pins.contains_key(slug) ==> offset_of(slug, pins, modulus, seed) == pins[slug],
        !pins.contains_key(slug) ==> offset_of(slug, pins, modulus, seed) < modulus,
{
    let n = number_of(digest::sha256_of(vstd::utf8::encode_utf8(seed + slug)));
    assert(0 <= n % (modulus as nat) < modulus);
}

/// The lines that git prints for a worktree: its path, its commit, the branch that it
/// has checked out or that it has none, and a blank one.
pub open spec fn block_of(entry: ListedModel, commit: Seq<char>) -> Seq<Seq<char>> {
    let head = seq!["worktree "@ + entry.path, "HEAD "@ + commit];
    let with_branch = match entry.branch {
        Some(branch) => head.push("branch refs/heads/"@ + branch),
        None => head,
    };
    (if entry.detached {
        with_branch.push("detached"@)
    } else {
        with_branch
    }).push(""@)
}

/// The lines that git prints for worktrees.
pub open spec fn printed(entries: Seq<ListedModel>, commit: Seq<char>) -> Seq<Seq<char>>
    decreases entries.len(),
{
    if entries.len() == 0 {
        seq![]
    } else {
        printed(entries.drop_last(), commit) + block_of(entries.last(), commit)
    }
}

/// What git prints of worktrees is read back as these worktrees, all of them and in
/// order, each with its path, its branch and whether it has none.
pub proof fn law_printed_worktrees_read_back(entries: Seq<ListedModel>, commit: Seq<char>)
    ensures
        listed(printed(entries, commit), printed(entries, commit).len()) == entries,
    decreases entries.len(),
{
    if entries.len() == 0 {
        assert(listed(printed(entries, commit), 0) =~= entries);
    } else {
        let front = entries.drop_last();
        let last = entries.last();
        law_printed_worktrees_read_back(front, commit);
        let before = printed(front, commit);
        let block = block_of(last, commit);
        let all = printed(entries, commit);
        assert(all == before + block);
        lemma_listed_prefix(before, block, before.len());
        lemma_block_read_back(front, last, commit);
        let n = before.len();
        let worktree = "worktree "@ + last.path;
        assert(all[n as int] == block[0]);
        assert(all[n as int + 1] == block[1]);
        assert(all[n as int + 2] == block[2]);
        reveal_with_fuel(listed, 6);
        assert(listed(all, n) == front);
        let s1 = listed(all, n + 1);
        let s2 = listed(all, n + 2);
        let s3 = listed(all, n + 3);
        assert(s1 == with_line(front, block[0]));
        assert(s2 == with_line(s1, block[1]));
        assert(s3 == with_line(s2, block[2]));
        if block.len() >= 4 {
            assert(all[n as int + 3] == block[3]);
            assert(listed(all, n + 4) == with_line(s3, block[3]));
        }
        if block.len() == 5 {
            assert(all[n as int + 4] == block[4]);
            assert(listed(all, n + 5) == with_line(listed(all, n + 4), block[4]));
        }
        assert(front.push(last) =~= entries);
        assert(all.len() == n + block.len());
    }
}

proof fn lemma_listed_prefix(a: Seq<Seq<char>>, b: Seq<Seq<char>>, n: nat)
    requires
        n <= a.len(),
    ensures
        listed(a + b, n) == listed(a, n),
    decreases n,
{
    if n > 0 {
        lemma_listed_prefix(a, b, (n - 1) as nat);
        assert((a + b)[n - 1] == a[n - 1]);
    }
}

proof fn lemma_prefixed(prefix: Seq<char>, rest: Seq<char>)
    ensures
        text::without_prefix(prefix + rest, prefix) == Some(rest),
{
    assert((prefix + rest).take(prefix.len() as int) =~= prefix);
    assert((prefix + rest).skip(prefix.len() as int) =~= rest);
}

proof fn lemma_other_start(line: Seq<char>, prefix: Seq<char>)
    requires
        prefix.len() > 0,
        line.len() == 0 || line[0] != prefix[0],
    ensures
        text::without_prefix(line, prefix) is None,
{
    if prefix.is_prefix_of(line) {
        assert(line.take(prefix.len() as int)[0] == line[0]);
    }
}

proof fn lemma_block_read_back(front: Seq<ListedModel>, last: ListedModel, commit: Seq<char>)
    ensures
        ({
            let fresh = ListedModel { path: last.path, branch: None, detached: false };
            let branched = ListedModel { branch: last.branch, ..fresh };
            &&& with_line(front, "worktree "@ + last.path) == front.push(fresh)
            &&& with_line(front.push(fresh), "HEAD "@ + commit) == front.push(fresh)
            &&& last.branch is Some ==> with_line(
                front.push(fresh),
                "branch refs/heads/"@ + last.branch->0,
            ) == front.push(branched)
            &&& with_line(front.push(branched), "detached"@) == front.push(
                ListedModel { detached: true, ..branched },
            )
            &&& with_line(front.push(branched), ""@) == front.push(branched)
            &&& with_line(front.push(ListedModel { detached: true, ..branched }), ""@)
                == front.push(ListedModel { detached: true, ..branched })
        }),
{
    reveal_strlit("worktree ");
    reveal_strlit("HEAD ");
    reveal_strlit("branch refs/heads/");
    reveal_strlit("detached");
    reveal_strlit("");
    let (w, b) = ("worktree "@, "branch refs/heads/"@);
    let fresh = ListedModel { path: last.path, branch: None, detached: false };
    let branched = ListedModel { branch: last.branch, ..fresh };
    let off = ListedModel { detached: true, ..branched };
    lemma_prefixed(w, last.path);
    let head = "HEAD "@ + commit;
    assert(head[0] == 'H');
    lemma_other_start(head, w);
    lemma_other_start(head, b);
    assert(head != "detached"@) by {
        assert("detached"@[0] == 'd');
    }
    if last.branch is Some {
        lemma_prefixed(b, last.branch->0);
        let line = b + last.branch->0;
        assert(line[0] == 'b');
        lemma_other_start(line, w);
        assert(front.push(fresh).drop_last() =~= front);
    }
    lemma_other_start("detached"@, w);
    lemma_other_start("detached"@, b);
    assert(front.push(branched).drop_last() =~= front);
    lemma_other_start(""@, w);
    lemma_other_start(""@, b);
    assert(""@ != "detached"@) by {
        assert(""@.len() == 0);
    }
}

/// A slug keeps every letter and digit of a name, in order, the capital ones as small
/// ones; whatever else there is becomes dashes.
pub proof fn law_slugs_keep_letters_and_digits(name: Seq<char>)
    ensures
        slug_of(name).filter(|c: char| slug_char(c)) == name.map_values(
            |c: char| lower_char(c),
        ).filter(|c: char| slug_char(c)),
        forall|c: char| #[trigger] slug_char(c) <==> ('a' <= c <= 'z' || '0' <= c <= '9'),
        forall|c: char|
            !('A' <= c <= 'Z') ==> #[trigger] lower_char(c) == c,
        forall|c: char|
            'A' <= c <= 'Z' ==> 'a' <= #[trigger] lower_char(c) <= 'z' && lower_char(c) as int - 'a'
                as int == c as int - 'A' as int,
{
    let small = name.map_values(|c: char| lower_char(c));
    let all = dashed(name, name.len());
    lemma_dashed_keeps(name, name.len());
    assert(small.take(name.len() as int) =~= small);
    lemma_front_keeps(all);
    lemma_back_keeps(text::trim_start_char(all, '-'));
}

proof fn lemma_dashed_keeps(s: Seq<char>, n: nat)
    requires
        n <= s.len(),
    ensures
        dashed(s, n).filter(|c: char| slug_char(c)) == s.map_values(|c: char| lower_char(c)).take(
            n as int,
        ).filter(|c: char| slug_char(c)),
    decreases n,
{
    let small = s.map_values(|c: char| lower_char(c));
    reveal(Seq::filter);
    if n == 0 {
        assert(small.take(0) =~= Seq::<char>::empty());
        assert(dashed(s, 0) =~= Seq::<char>::empty());
    } else {
        let m = (n - 1) as nat;
        lemma_dashed_keeps(s, m);
        let before = dashed(s, m);
        assert(small.take(n as int).drop_last() =~= small.take(m as int));
        assert(before.push(small[m as int]).drop_last() =~= before);
        assert(before.push('-').drop_last() =~= before);
    }
}

proof fn lemma_back_keeps(s: Seq<char>)
    ensures
        text::trim_end_char(s, '-').filter(|c: char| slug_char(c)) == s.filter(
            |c: char| slug_char(c),
        ),
    decreases s.len(),
{
    reveal(Seq::filter);
    if s.len() > 0 && s.last() == '-' {
        lemma_back_keeps(s.drop_last());
    }
}

proof fn lemma_front_keeps(s: Seq<char>)
    ensures
        text::trim_start_char(s, '-').filter(|c: char| slug_char(c)) == s.filter(
            |c: char| slug_char(c),
        ),
    decreases s.len(),
{
    let keep = |c: char| slug_char(c);
    if s.len() > 0 && s[0] == '-' {
        let rest = s.drop_first();
        lemma_front_keeps(rest);
        let one = seq!['-'];
        assert(s =~= one + rest);
        Seq::filter_distributes_over_add(one, rest, keep);
        assert(one.filter(keep) =~= Seq::<char>::empty()) by {
            reveal(Seq::filter);
            assert(one.drop_last() =~= Seq::<char>::empty());
            assert(one.drop_last().filter(keep) =~= Seq::<char>::empty());
        }
        assert(one.filter(keep) + rest.filter(keep) =~= rest.filter(keep));
    }
}

/// A worktree goes by its branch, else, where it has none checked out, by the name of
/// its directory, else by nothing.
pub proof fn law_worktrees_go_by_branch_or_directory(entry: WorktreeListEntry)
    ensures
        entry.branch is Some ==> entry_slug(entry) == slug_of(entry.branch->0@),
        entry.branch is None && entry.detached && paths::file_name_of(entry.path@) is Some
            ==> entry_slug(entry) == slug_of(paths::file_name_of(entry.path@)->0),
        entry.branch is None && !entry.detached ==> entry_slug(entry).len() == 0,
{
    reveal_strlit("");
}

/// The offset of a slug that is not pinned is the number in the first four bytes of
/// the hash of seed and slug, the first byte the highest, below the modulus; nothing
/// but the slug, the seed and the modulus decides it.
pub proof fn law_offsets_come_from_the_hash(
    slug: Seq<char>,
    pins: Map<Seq<char>, u32>,
    modulus: u32,
    seed: Seq<char>,
)
    requires
        !pins.contains_key(slug),
    ensures
        slug.len() == 0 || modulus == 0 ==> offset_of(slug, pins, modulus, seed) == 0,
        slug.len() > 0 && modulus > 0 ==> {
            let hash = digest::sha256_of(vstd::utf8::encode_utf8(seed + slug));
            offset_of(slug, pins, modulus, seed) as int == (((hash[0] as int * 256
                + hash[1] as int) * 256 + hash[2] as int) * 256 + hash[3] as int) % (
            modulus as int)
        },
{
    if slug.len() > 0 && modulus > 0 {
        let hash = digest::sha256_of(vstd::utf8::encode_utf8(seed + slug));
        let n = number_of(hash);
        assert(n == ((hash[0] as int * 256 + hash[1] as int) * 256 + hash[2] as int) * 256
            + hash[3] as int);
        assert(0 <= n % (modulus as nat) < modulus);
    }
}

/// The model of a listed worktree has each field under its own name.
pub proof fn law_listed_worktrees_say_their_fields(e: WorktreeListEntry)
    ensures
        e.deep_view().path == e.path@ && e.deep_view().branch == e.branch.deep_view(),
        e.deep_view().detached == e.detached,
{
}

} // verus!
