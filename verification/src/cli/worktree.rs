//! `worktree`: what a worktree's identity is, where identities collide, and how an
//! offset is pinned in a configuration file.
use crate::config::model::Config;
use crate::paths::join_path;
use crate::paths;
use crate::text;
use crate::text::{concat, concat3};
use crate::tomldoc;
use crate::tomldoc::{open_subtable, open_table, parse_document, set_integer, write_document};
use crate::worktree;
use crate::worktree::{derive_slug, offset_for, slugify, BaseRef, Identity, WorktreeListEntry};
use toml_edit::DocumentMut;
use crate::lists;
use vstd::prelude::*;

verus! {

// ---------------------------------------------------------------------------
// Identity
// ---------------------------------------------------------------------------
/// The offset of a slug under a configuration.
pub open spec fn configured_offset(config: Config, slug: Seq<char>) -> u32 {
    worktree::offset_of(slug, config.worktrees.assign@, config.worktrees.modulus, config.seed())
}

/// The offset of each worktree.
pub fn offsets_of(config: &Config, entries: &Vec<WorktreeListEntry>) -> (res: Vec<u32>)
    ensures
        res@.len() == entries@.len(),
        forall|i: int|
            0 <= i < entries@.len() ==> #[trigger] res@[i] == configured_offset(
                *config,
                worktree::entry_slug(entries@[i]),
            ),
{
    let mut offsets: Vec<u32> = Vec::new();
    let mut i: usize = 0;
    while i < entries.len()
        invariant
            i <= entries@.len(),
            offsets@.len() == i,
            forall|k: int|
                0 <= k < i ==> #[trigger] offsets@[k] == configured_offset(
                    *config,
                    worktree::entry_slug(entries@[k]),
                ),
        decreases entries@.len() - i,
    {
        let slug = derive_slug(&entries[i]);
        let offset: u32 = offset_for(
            slug.as_str(),
            &config.worktrees.assign,
            config.worktrees.modulus,
            config.resolved_seed(),
        );
        offsets.push(offset);
        i += 1;
    }
    offsets
}

/// Whether `identity` is that of the worktree `here`, which stands in `dir`: it goes
/// by its branch, or by the directory where no branch is checked out. Outside a
/// repository there is nothing to go by.
pub open spec fn identifies(
    config: Config,
    here: Option<WorktreeListEntry>,
    dir: Seq<char>,
    identity: Identity,
) -> bool {
    &&& identity.offset == configured_offset(config, identity.slug@)
    &&& match here {
        None => identity.slug@ == ""@ && identity.base_ref == BaseRef::NoRepository
            && identity.base_label@ == ""@,
        Some(entry) => identity.slug@ == worktree::entry_slug(entry) && match entry.branch {
            Some(branch) => identity.base_ref == BaseRef::Branch && identity.base_label@
                == branch@,
            None => identity.base_ref == BaseRef::WorktreeDir && identity.base_label@ == dir,
        },
    }
}

/// The identity of a worktree.
pub fn identity_of(config: &Config, here: Option<&WorktreeListEntry>, dir: &str) -> (res: Identity)
    ensures
        identifies(
            *config,
            match here {
                Some(entry) => Some(*entry),
                None => None,
            },
            dir@,
            res,
        ),
{
    let slug = match here {
        None => "".to_owned(),
        Some(entry) => derive_slug(entry),
    };
    let offset: u32 = offset_for(
        slug.as_str(),
        &config.worktrees.assign,
        config.worktrees.modulus,
        config.resolved_seed(),
    );
    match here {
        None => Identity {
            slug,
            base_ref: BaseRef::NoRepository,
            base_label: "".to_owned(),
            offset,
        },
        Some(entry) => match &entry.branch {
            Some(branch) => Identity {
                slug,
                base_ref: BaseRef::Branch,
                base_label: branch.clone(),
                offset,
            },
            None => Identity {
                slug,
                base_ref: BaseRef::WorktreeDir,
                base_label: dir.to_owned(),
                offset,
            },
        },
    }
}

// ---------------------------------------------------------------------------
// Status
// ---------------------------------------------------------------------------
/// A slug as it is shown.
pub open spec fn shown_slug(slug: Seq<char>) -> Seq<char> {
    if slug.len() == 0 {
        "<empty>"@
    } else {
        slug
    }
}

fn display_slug(slug: &str) -> (res: &str)
    ensures
        res@ == shown_slug(slug@),
{
    if slug.is_empty() {
        "<empty>"
    } else {
        slug
    }
}

/// The word for what an identity comes from.
pub open spec fn base_word(base: BaseRef) -> Seq<char> {
    match base {
        BaseRef::Branch => "branch"@,
        BaseRef::DetachedSha => "detached SHA"@,
        BaseRef::WorktreeDir => "worktree dir"@,
        BaseRef::NoRepository => "none (not a git repo)"@,
    }
}

/// The word for where an offset comes from.
pub open spec fn assignment_word(config: Config, slug: Seq<char>) -> Seq<char> {
    if config.worktrees.assign@.contains_key(slug) {
        "pinned"@
    } else if slug.len() == 0 {
        "n/a"@
    } else {
        "hash"@
    }
}

/// The words for what becomes of the compose project.
pub open spec fn isolation_word(config: Config, slug: Seq<char>) -> Seq<char> {
    if slug.len() == 0 {
        "skipped — no slug"@
    } else if !config.worktrees.isolate_compose {
        "skipped — disabled"@
    } else {
        "applied"@
    }
}

/// The six lines that are always printed.
pub open spec fn identity_text(config: Config, identity: Identity) -> Seq<Seq<char>> {
    seq![
        "slug:       "@ + shown_slug(identity.slug@),
        "base ref:   "@ + identity.base_label@,
        "base kind:  "@ + base_word(identity.base_ref),
        "offset:     "@ + text::digits(identity.offset as nat),
        "modulus:    "@ + text::digits(config.worktrees.modulus as nat) + " (assignment: "@
            + assignment_word(config, identity.slug@) + ")"@,
        "isolate:    "@ + (if config.worktrees.isolate_compose {
            "true"@
        } else {
            "false"@
        }) + " (compose project name "@ + isolation_word(config, identity.slug@) + ")"@,
    ]
}

/// The line with the compose project, where the worktree has one of its own.
pub open spec fn project_text(config: Config, slug: Seq<char>) -> Seq<Seq<char>> {
    if config.worktrees.isolate_compose && slug.len() > 0 {
        seq![
            "                  → "@ + (match config.project.name {
                Some(name) => name@,
                None => "croft"@,
            }) + "-"@ + slug,
        ]
    } else {
        seq![]
    }
}

/// The number that a variable's offset is added to; zero where the text is none.
pub open spec fn base_value(base: Seq<char>) -> int {
    match text::signed_value(base) {
        Some(v) => v,
        None => 0,
    }
}

/// The line of a variable with a base.
pub open spec fn derived_line(name: Seq<char>, base: Seq<char>, offset: u32) -> Seq<char> {
    "  "@ + text::padded_right(name, 20) + " = "@ + text::signed_digits(
        base_value(base) + offset,
    ) + "  (base "@ + text::signed_digits(base_value(base)) + " + offset "@ + text::digits(
        offset as nat,
    ) + ")"@
}

/// The lines of the first `n` variables, in the order of their names.
pub open spec fn derived_lines(config: Config, offset: u32, n: nat) -> Seq<Seq<char>>
    decreases n,
{
    if n == 0 {
        seq![]
    } else {
        let before = derived_lines(config, offset, (n - 1) as nat);
        let name = config.env.keys()[n - 1];
        match config.env@[name].base {
            Some(base) => before.push(derived_line(name, base@, offset)),
            None => before,
        }
    }
}

/// The lines of the variables with a base, below a title.
pub open spec fn derived_text(config: Config, offset: u32) -> Seq<Seq<char>> {
    let lines = derived_lines(config, offset, config.env.keys().len());
    if lines.len() == 0 {
        seq![]
    } else {
        seq!["\nderived env:"@] + lines
    }
}

/// Whether every variable with a base stays within an `i64` once the offset is
/// added.
pub open spec fn bases_fit(config: Config, offset: u32) -> bool {
    forall|name: Seq<char>| #[trigger]
        config.env@.contains_key(name) && config.env@[name].base is Some ==> base_value(
            config.env@[name].base->0@,
        ) + offset <= i64::MAX
}

/// Everything that `status` prints.
pub open spec fn status_text(config: Config, identity: Identity) -> Seq<Seq<char>> {
    identity_text(config, identity) + project_text(config, identity.slug@) + derived_text(
        config,
        identity.offset,
    )
}

fn identity_lines(config: &Config, identity: &Identity) -> (res: Vec<String>)
    ensures
        res.deep_view() == identity_text(*config, *identity),
{
    let slug = identity.slug.as_str();
    let kind = match identity.base_ref {
        BaseRef::Branch => "branch",
        BaseRef::DetachedSha => "detached SHA",
        BaseRef::WorktreeDir => "worktree dir",
        BaseRef::NoRepository => "none (not a git repo)",
    };
    let offset = text::decimal(identity.offset as u64);
    let assignment = if config.worktrees.assign.contains_key(slug) {
        "pinned"
    } else if slug.is_empty() {
        "n/a"
    } else {
        "hash"
    };
    let modulus = text::decimal(config.worktrees.modulus as u64);
    let modulus_head = concat3("modulus:    ", modulus.as_str(), " (assignment: ");
    let isolation = if !identity.is_isolated() {
        "skipped — no slug"
    } else if !config.worktrees.isolate_compose {
        "skipped — disabled"
    } else {
        "applied"
    };
    let isolate_head = concat3(
        "isolate:    ",
        if config.worktrees.isolate_compose {
            "true"
        } else {
            "false"
        },
        " (compose project name ",
    );
    let lines = vec![
        concat("slug:       ", display_slug(slug)),
        concat("base ref:   ", identity.base_label.as_str()),
        concat("base kind:  ", kind),
        concat("offset:     ", offset.as_str()),
        concat3(modulus_head.as_str(), assignment, ")"),
        concat3(isolate_head.as_str(), isolation, ")"),
    ];
    assert(lines.deep_view() =~= identity_text(*config, *identity));
    lines
}

fn derived(config: &Config, offset: u32) -> (res: Vec<String>)
    requires
        bases_fit(*config, offset),
    ensures
        res.deep_view() == derived_lines(*config, offset, config.env.keys().len()),
{
    let mut lines: Vec<String> = Vec::new();
    let n = text::decimal(offset as u64);
    let count: usize = config.env.len();
    let mut i: usize = 0;
    assert(lines.deep_view() =~= derived_lines(*config, offset, 0));
    while i < count
        invariant
            i <= count,
            count == config.env.keys().len(),
            n@ == text::digits(offset as nat),
            bases_fit(*config, offset),
            lines.deep_view() == derived_lines(*config, offset, i as nat),
        decreases count - i,
    {
        let ghost before = lines.deep_view();
        let name = config.env.key_at(i);
        let spec = config.env.value_at(i);
        if let Some(text_of) = &spec.base {
            assert(config.env@.contains_key(name@));
            let base: i64 = match text::parse_i64(text_of.as_str()) {
                Some(v) => v,
                None => 0,
            };
            let resolved = text::signed_decimal(base + offset as i64);
            let base_text = text::signed_decimal(base);
            let padded = text::pad_right(name.as_str(), 20);
            let a = concat3("  ", padded.as_str(), " = ");
            let b = concat3(a.as_str(), resolved.as_str(), "  (base ");
            let c = concat3(b.as_str(), base_text.as_str(), " + offset ");
            let line = concat3(c.as_str(), n.as_str(), ")");
            lines.push(line);
            assert(lines.deep_view() =~= before.push(derived_line(name@, text_of@, offset)));
        }
        i += 1;
    }
    lines
}

/// What `status` prints: the identity, the compose project, and the variables that
/// the offset is added to.
pub fn status(config: &Config, identity: &Identity) -> (res: Vec<String>)
    requires
        bases_fit(*config, identity.offset),
    ensures
        res.deep_view() == status_text(*config, *identity),
{
    let mut lines = identity_lines(config, identity);
    let ghost head = identity_text(*config, *identity);
    let ghost own = project_text(*config, identity.slug@);
    if config.worktrees.isolate_compose && identity.is_isolated() {
        let project = match &config.project.name {
            Some(name) => name.as_str(),
            None => "croft",
        };
        let front = concat3("                  → ", project, "-");
        lines.push(concat(front.as_str(), identity.slug.as_str()));
        assert(lines.deep_view() =~= head + own);
    } else {
        assert(lines.deep_view() =~= head + own);
    }
    let more = derived(config, identity.offset);
    assert(more@.len() == more.deep_view().len());
    let ghost so_far = lines.deep_view();
    if more.len() > 0 {
        lines.push("\nderived env:".to_owned());
        assert(lines.deep_view() =~= so_far + seq!["\nderived env:"@]);
        let ghost titled = lines.deep_view();
        let ghost tail = more.deep_view();
        let mut rest = more;
        lines.append(&mut rest);
        assert(lines.deep_view() =~= titled + tail);
        assert(titled + tail =~= so_far + (seq!["\nderived env:"@] + tail));
    } else {
        assert(lines.deep_view() =~= so_far + Seq::<Seq<char>>::empty());
    }
    lines
}

// ---------------------------------------------------------------------------
// List
// ---------------------------------------------------------------------------
/// What is printed where git lists no worktree.
pub const NO_WORKTREES: &'static str =
    "No git worktrees detected (run from inside a git repo).";

/// A row of the table of worktrees.
#[derive(Debug, PartialEq, Eq)]
pub struct ListRow {
    pub worktree: String,
    pub branch: String,
    pub slug: String,
    pub offset: String,
    pub source: String,
}

/// Whether `row` shows a worktree at an offset.
pub open spec fn row_shows(row: ListRow, config: Config, entry: WorktreeListEntry, offset: u32) -> bool {
    let slug = worktree::entry_slug(entry);
    &&& row.worktree@ == entry.path@
    &&& row.branch@ == match entry.branch {
        Some(branch) => branch@,
        None => "<detached>"@,
    }
    &&& row.slug@ == shown_slug(slug)
    &&& row.offset@ == text::digits(offset as nat)
    &&& row.source@ == if config.worktrees.assign@.contains_key(slug) {
        "pinned"@
    } else {
        "hash"@
    }
}

/// The table of worktrees, given the offset of each.
pub fn list_rows(config: &Config, entries: &Vec<WorktreeListEntry>, offsets: &Vec<u32>) -> (res: Vec<
    ListRow,
>)
    requires
        offsets@.len() == entries@.len(),
    ensures
        res@.len() == entries@.len(),
        forall|i: int|
            0 <= i < entries@.len() ==> row_shows(
                #[trigger] res@[i],
                *config,
                entries@[i],
                offsets@[i],
            ),
{
    let mut rows: Vec<ListRow> = Vec::new();
    let mut i: usize = 0;
    while i < entries.len()
        invariant
            i <= entries@.len(),
            offsets@.len() == entries@.len(),
            rows@.len() == i,
            forall|k: int|
                0 <= k < i ==> row_shows(#[trigger] rows@[k], *config, entries@[k], offsets@[k]),
        decreases entries@.len() - i,
    {
        let entry = &entries[i];
        let slug = derive_slug(entry);
        let source = if config.worktrees.assign.contains_key(slug.as_str()) {
            "pinned"
        } else {
            "hash"
        };
        let branch = match &entry.branch {
            Some(branch) => branch.clone(),
            None => "<detached>".to_owned(),
        };
        rows.push(
            ListRow {
                worktree: entry.path.clone(),
                branch,
                slug: display_slug(slug.as_str()).to_owned(),
                offset: text::decimal(offsets[i] as u64),
                source: source.to_owned(),
            },
        );
        i += 1;
    }
    rows
}

/// Whether the worktrees at places `i` and `j` have names and share an offset.
pub open spec fn clash(entries: Seq<WorktreeListEntry>, offsets: Seq<u32>, i: int, j: int) -> bool {
    &&& 0 <= i < j < entries.len()
    &&& worktree::entry_slug(entries[i]).len() > 0
    &&& worktree::entry_slug(entries[j]).len() > 0
    &&& offsets[i] == offsets[j]
}

/// Whether two of the first `n` worktrees share the offset.
pub open spec fn shared(entries: Seq<WorktreeListEntry>, offsets: Seq<u32>, n: int, offset: u32) -> bool {
    exists|i: int, j: int| #[trigger]
        clash(entries, offsets, i, j) && j < n && offsets[j] == offset
}

/// Whether the numbers ascend.
pub open spec fn rising(v: Seq<u32>) -> bool {
    forall|i: int, j: int| 0 <= i < j < v.len() ==> v[i] < v[j]
}

fn insert_rising(v: &mut Vec<u32>, x: u32)
    requires
        rising(old(v)@),
    ensures
        rising(final(v)@),
        forall|y: u32| #[trigger] final(v)@.contains(y) <==> old(v)@.contains(y) || y == x,
{
    let mut at: usize = 0;
    while at < v.len() && v[at] < x
        invariant
            v@ == old(v)@,
            at <= v@.len(),
            rising(v@),
            forall|k: int| 0 <= k < at ==> v@[k] < x,
        decreases v@.len() - at,
    {
        at += 1;
    }
    let ghost before = v@;
    if at < v.len() && v[at] == x {
        assert(v@[at as int] == x);
        return ;
    }
    v.insert(at, x);
    assert(v@ =~= before.insert(at as int, x));
    assert forall|y: u32| #[trigger] v@.contains(y) <==> before.contains(y) || y == x by {
        if v@.contains(y) && y != x {
            let k = choose|k: int| 0 <= k < v@.len() && v@[k] == y;
            if k < at {
                assert(before[k] == y);
            } else {
                assert(before[k - 1] == y);
            }
        }
        if before.contains(y) {
            let k = choose|k: int| 0 <= k < before.len() && before[k] == y;
            if k < at {
                assert(v@[k] == y);
            } else {
                assert(v@[k + 1] == y);
            }
        }
        if y == x {
            assert(v@[at as int] == y);
        }
    }
}

fn seen_before(entries: &Vec<WorktreeListEntry>, offsets: &Vec<u32>, n: usize) -> (res: bool)
    requires
        n < entries@.len(),
        offsets@.len() == entries@.len(),
        worktree::entry_slug(entries@[n as int]).len() > 0,
    ensures
        res == (exists|i: int| #[trigger] clash(entries@, offsets@, i, n as int)),
{
    let mut i: usize = 0;
    while i < n
        invariant
            i <= n < entries@.len(),
            offsets@.len() == entries@.len(),
            worktree::entry_slug(entries@[n as int]).len() > 0,
            forall|k: int| 0 <= k < i ==> !#[trigger] clash(entries@, offsets@, k, n as int),
        decreases n - i,
    {
        let slug = derive_slug(&entries[i]);
        if !slug.as_str().is_empty() && offsets[i] == offsets[n] {
            assert(clash(entries@, offsets@, i as int, n as int));
            return true;
        }
        i += 1;
    }
    false
}

/// The offsets that two worktrees with names share, ascending.
pub fn collisions(entries: &Vec<WorktreeListEntry>, offsets: &Vec<u32>) -> (res: Vec<u32>)
    requires
        offsets@.len() == entries@.len(),
    ensures
        rising(res@),
        forall|x: u32| #[trigger]
            res@.contains(x) <==> shared(entries@, offsets@, entries@.len() as int, x),
{
    let mut out: Vec<u32> = Vec::new();
    let mut n: usize = 0;
    while n < entries.len()
        invariant
            n <= entries@.len(),
            offsets@.len() == entries@.len(),
            rising(out@),
            forall|x: u32| #[trigger]
                out@.contains(x) <==> shared(entries@, offsets@, n as int, x),
        decreases entries@.len() - n,
    {
        let ghost before = out@;
        let slug = derive_slug(&entries[n]);
        if !slug.as_str().is_empty() && seen_before(entries, offsets, n) {
            insert_rising(&mut out, offsets[n]);
            assert forall|x: u32| #[trigger] out@.contains(x) <==> shared(
                entries@,
                offsets@,
                n + 1,
                x,
            ) by {
                let i = choose|i: int| #[trigger] clash(entries@, offsets@, i, n as int);
                if x == offsets@[n as int] {
                    assert(clash(entries@, offsets@, i, n as int));
                    assert(shared(entries@, offsets@, n + 1, x));
                }
                lemma_shared_step(entries@, offsets@, n as int, x);
            }
        } else {
            assert forall|x: u32| #[trigger] out@.contains(x) <==> shared(
                entries@,
                offsets@,
                n + 1,
                x,
            ) by {
                lemma_shared_step(entries@, offsets@, n as int, x);
            }
        }
        n += 1;
    }
    out
}

proof fn lemma_shared_step(entries: Seq<WorktreeListEntry>, offsets: Seq<u32>, n: int, x: u32)
    ensures
        shared(entries, offsets, n, x) ==> shared(entries, offsets, n + 1, x),
        shared(entries, offsets, n + 1, x) ==> shared(entries, offsets, n, x) || (offsets[n] == x
            && exists|i: int| #[trigger] clash(entries, offsets, i, n)),
{
    if shared(entries, offsets, n, x) {
        let (i, j) = choose|i: int, j: int| #[trigger]
            clash(entries, offsets, i, j) && j < n && offsets[j] == x;
        assert(clash(entries, offsets, i, j) && j < n + 1);
    }
    if shared(entries, offsets, n + 1, x) {
        let (i, j) = choose|i: int, j: int| #[trigger]
            clash(entries, offsets, i, j) && j < n + 1 && offsets[j] == x;
        if j < n {
            assert(clash(entries, offsets, i, j) && j < n);
        } else {
            assert(clash(entries, offsets, i, n));
        }
    }
}

/// The numbers in decimal.
pub open spec fn numerals(v: Seq<u32>) -> Seq<Seq<char>> {
    Seq::new(v.len(), |i: int| text::digits(v[i] as nat))
}

/// What `list` warns of.
pub open spec fn warning_text(shared: Seq<u32>) -> Seq<Seq<char>> {
    seq![
        "\nwarning: "@ + text::digits(shared.len()) + " offset(s) collide between worktrees: {"@
            + text::joined(numerals(shared), ", "@) + "}"@,
        "         pin a slug with `croft worktree assign <name> <offset>` to dodge."@,
    ]
}

/// What `list` warns of, where offsets are shared.
pub fn collision_warning(shared: &Vec<u32>) -> (res: Option<Vec<String>>)
    ensures
        match res {
            Some(lines) => shared@.len() > 0 && lines.deep_view() == warning_text(shared@),
            None => shared@.len() == 0,
        },
{
    if shared.len() == 0 {
        return None;
    }
    let mut listed: Vec<String> = Vec::new();
    let mut i: usize = 0;
    assert(listed.deep_view() =~= numerals(shared@).take(0));
    while i < shared.len()
        invariant
            i <= shared@.len(),
            listed.deep_view() == numerals(shared@).take(i as int),
        decreases shared@.len() - i,
    {
        let ghost before = listed.deep_view();
        listed.push(text::decimal(shared[i] as u64));
        assert(listed.deep_view() =~= before.push(numerals(shared@)[i as int]));
        assert(before.push(numerals(shared@)[i as int]) =~= numerals(shared@).take(i + 1));
        i += 1;
    }
    assert(numerals(shared@).take(i as int) =~= numerals(shared@));
    let n = text::decimal(shared.len() as u64);
    let all = text::join(&listed, ", ");
    let head = concat3("\nwarning: ", n.as_str(), " offset(s) collide between worktrees: {");
    let lines = vec![
        concat3(head.as_str(), all.as_str(), "}"),
        "         pin a slug with `croft worktree assign <name> <offset>` to dodge.".to_owned(),
    ];
    assert(lines.deep_view() =~= warning_text(shared@));
    Some(lines)
}

// ---------------------------------------------------------------------------
// Assign
// ---------------------------------------------------------------------------
/// Why an offset is not pinned.
#[derive(Debug, PartialEq, Eq)]
pub enum AssignFault {
    /// Nothing is left of the name.
    EmptySlug { name: String },
    /// The file is no TOML, for that reason.
    Unreadable { target: String, reason: String },
    /// Something other than a table stands at that key.
    NotATable { key: String },
}

impl AssignFault {
    /// The message for the user.
    pub open spec fn text(&self) -> Seq<char> {
        match *self {
            AssignFault::EmptySlug { name } => "`"@ + name@
                + "` slugifies to an empty string; nothing to pin"@,
            AssignFault::Unreadable { target, reason } => "parse "@ + target@,
            AssignFault::NotATable { key } => "`"@ + key@ + "` is not a table"@,
        }
    }

    /// The message for the user.
    pub fn message(&self) -> (res: String)
        ensures
            res@ == self.text(),
    {
        match self {
            AssignFault::EmptySlug { name } => concat3(
                "`",
                name.as_str(),
                "` slugifies to an empty string; nothing to pin",
            ),
            AssignFault::Unreadable { target, reason } => concat("parse ", target.as_str()),
            AssignFault::NotATable { key } => concat3("`", key.as_str(), "` is not a table"),
        }
    }
}

/// The file that an offset is pinned in.
pub open spec fn target_of(project_root: Seq<char>, local: bool) -> Seq<char> {
    if local {
        paths::joined_path(paths::joined_path(project_root, ".croft"@), "local.toml"@)
    } else {
        paths::joined_path(project_root, "croft.toml"@)
    }
}

/// The slug to pin and the file to pin it in.
pub fn assign_target(name: &str, local: bool, project_root: &str) -> (res: Result<
    (String, String),
    AssignFault,
>)
    ensures
        match res {
            Ok((slug, target)) => slug@ == worktree::slug_of(name@) && slug@.len() > 0 && target@
                == target_of(project_root@, local),
            Err(e) => worktree::slug_of(name@).len() == 0 && (e matches AssignFault::EmptySlug {
                name: n,
            } && n@ == name@),
        },
{
    let slug = slugify(name);
    if slug.as_str().is_empty() {
        return Err(AssignFault::EmptySlug { name: name.to_owned() });
    }
    let target = if local {
        let dir = join_path(project_root, ".croft");
        join_path(dir.as_str(), "local.toml")
    } else {
        join_path(project_root, "croft.toml")
    };
    Ok((slug, target))
}

/// The path of the table of pins.
pub open spec fn pins_path() -> Seq<Seq<char>> {
    seq!["worktrees"@, "assign"@]
}

/// The path of a pin.
pub open spec fn pin_path(slug: Seq<char>) -> Seq<Seq<char>> {
    seq!["worktrees"@, "assign"@, slug]
}

/// What stands in the way of a pin: a key that is no table.
pub open spec fn obstacle(tables: Map<Seq<Seq<char>>, bool>) -> Option<Seq<char>> {
    let above = seq!["worktrees"@];
    if !tomldoc::opens(tables, above) {
        Some("worktrees"@)
    } else if !tomldoc::opens(tomldoc::opened(tables, above), pins_path()) {
        Some("worktrees.assign"@)
    } else {
        None
    }
}

/// The tables once there is one for pins.
pub open spec fn pins_opened(tables: Map<Seq<Seq<char>>, bool>) -> Map<Seq<Seq<char>>, bool> {
    tomldoc::opened(tomldoc::opened(tables, seq!["worktrees"@]), pins_path())
}

/// Whether the entries beside a pin are written as before, comments and spacing
/// with them, and none came but for the tables of pins.
pub open spec fn formatting_kept(
    before: Map<Seq<Seq<char>>, Seq<char>>,
    after: Map<Seq<Seq<char>>, Seq<char>>,
    slug: Seq<char>,
) -> bool {
    forall|p: Seq<Seq<char>>|
        !pin_path(slug).is_prefix_of(p) ==> {
            &&& before.contains_key(p) ==> (#[trigger] after.contains_key(p)) && after[p]
                == before[p]
            &&& after.contains_key(p) ==> before.contains_key(p) || p == seq!["worktrees"@] || p
                == pins_path()
        }
}

/// Whether a document is as before but for the pin, which is the offset: its
/// integers and tables, and how it is written.
pub open spec fn pinned(
    tables: Map<Seq<Seq<char>>, bool>,
    integers: Map<Seq<Seq<char>>, int>,
    entries: Map<Seq<Seq<char>>, Seq<char>>,
    slug: Seq<char>,
    offset: u32,
    doc: DocumentMut,
) -> bool {
    &&& tomldoc::doc_integers(doc).contains_key(pin_path(slug))
    &&& tomldoc::doc_integers(doc)[pin_path(slug)] == offset
    &&& tomldoc::same_beside(integers, tomldoc::doc_integers(doc), pin_path(slug))
    &&& tomldoc::same_beside(pins_opened(tables), tomldoc::doc_tables(doc), pin_path(slug))
    &&& formatting_kept(entries, tomldoc::doc_entries(doc), slug)
}

/// Pins an offset in a document: the tables for pins are put there where they are
/// missing, and nothing else changes.
pub fn pin(doc: &mut DocumentMut, slug: &str, offset: u32) -> (res: Result<(), AssignFault>)
    requires
        tomldoc::rooted(tomldoc::doc_tables(*old(doc))),
    ensures
        tomldoc::rooted(tomldoc::doc_tables(*final(doc))),
        match res {
            Ok(_) => obstacle(tomldoc::doc_tables(*old(doc))) is None && pinned(
                tomldoc::doc_tables(*old(doc)),
                tomldoc::doc_integers(*old(doc)),
                tomldoc::doc_entries(*old(doc)),
                slug@,
                offset,
                *final(doc),
            ),
            Err(e) => e matches AssignFault::NotATable { key } && obstacle(
                tomldoc::doc_tables(*old(doc)),
            ) == Some(key@),
        },
{
    let ghost tables = tomldoc::doc_tables(*doc);
    proof {
        let root = Seq::<Seq<char>>::empty();
        assert(root.len() != seq!["worktrees"@].len());
        assert(root.len() != pins_path().len());
        assert(seq!["worktrees"@].len() != pins_path().len());
    }
    if !open_table(doc, "worktrees") {
        return Err(AssignFault::NotATable { key: "worktrees".to_owned() });
    }
    if !open_subtable(doc, "worktrees", "assign") {
        return Err(AssignFault::NotATable { key: "worktrees.assign".to_owned() });
    }
    let ghost ready = tomldoc::doc_tables(*doc);
    set_integer(doc, "worktrees", "assign", slug, offset as i64);
    proof {
        let root = Seq::<Seq<char>>::empty();
        assert(!pin_path(slug@).is_prefix_of(root));
        assert(tomldoc::doc_tables(*doc).contains_key(root) == ready.contains_key(root));
    }
    Ok(())
}

/// What pinning an offset comes to.
#[derive(Debug, PartialEq, Eq)]
pub struct Assigned {
    /// The file to write.
    pub target: String,
    /// What to write to it.
    pub text: String,
    /// What is said about it.
    pub message: String,
}

/// What is said once an offset is pinned.
pub open spec fn assigned_text(
    name: Seq<char>,
    slug: Seq<char>,
    offset: u32,
    target: Seq<char>,
) -> Seq<char> {
    "Pinned `"@ + slug + (if slug == name {
        "`"@
    } else {
        "` (from `"@ + name + "`)"@
    }) + " → offset "@ + text::digits(offset as nat) + " in "@ + target
}

fn assigned_message(name: &str, slug: &str, offset: u32, target: &str) -> (res: String)
    ensures
        res@ == assigned_text(name@, slug@, offset, target@),
{
    let head = concat("Pinned `", slug);
    let origin = if *slug == *name {
        "`".to_owned()
    } else {
        concat3("` (from `", name, "`)")
    };
    let n = text::decimal(offset as u64);
    let front = concat3(head.as_str(), origin.as_str(), " → offset ");
    let middle = concat3(front.as_str(), n.as_str(), " in ");
    concat(middle.as_str(), target)
}

/// Whether a text is a document in which the offset is pinned, and which is
/// otherwise as it was.
pub open spec fn writes_pin(
    tables: Map<Seq<Seq<char>>, bool>,
    integers: Map<Seq<Seq<char>>, int>,
    entries: Map<Seq<Seq<char>>, Seq<char>>,
    slug: Seq<char>,
    offset: u32,
    text: Seq<char>,
) -> bool {
    exists|doc: DocumentMut| #[trigger]
        pinned(tables, integers, entries, slug, offset, doc) && text == tomldoc::doc_text(doc)
}

/// Pins the offset of a worktree in a configuration file, given what the file
/// holds; nothing for one that does not exist. Names are pinned by their slug.
pub fn assign(name: &str, offset: u32, local: bool, project_root: &str, raw: &str) -> (res: Result<
    Assigned,
    AssignFault,
>)
    ensures
        ({
            let slug = worktree::slug_of(name@);
            let target = target_of(project_root@, local);
            if slug.len() == 0 {
                res matches Err(AssignFault::EmptySlug { name: n }) && n@ == name@
            } else {
                match tomldoc::toml_parsed(raw@) {
                    Err(e) => res matches Err(AssignFault::Unreadable { target: t, reason })
                        && t@ == target && reason@ == e,
                    Ok((tables, integers, entries)) => match obstacle(tables) {
                        Some(k) => res matches Err(AssignFault::NotATable { key }) && key@ == k,
                        None => res matches Ok(done) && done.target@ == target && done.message@
                            == assigned_text(name@, slug, offset, target) && writes_pin(
                            tables,
                            integers,
                            entries,
                            slug,
                            offset,
                            done.text@,
                        ),
                    },
                }
            }
        }),
{
    let (slug, target) = match assign_target(name, local, project_root) {
        Ok(found) => found,
        Err(e) => {
            return Err(e);
        },
    };
    let mut doc = match parse_document(raw) {
        Ok(doc) => doc,
        Err(e) => {
            return Err(AssignFault::Unreadable { target, reason: e });
        },
    };
    let ghost tables = tomldoc::doc_tables(doc);
    let ghost integers = tomldoc::doc_integers(doc);
    let ghost entries = tomldoc::doc_entries(doc);
    match pin(&mut doc, slug.as_str(), offset) {
        Ok(_) => {},
        Err(e) => {
            return Err(e);
        },
    }
    assert(pinned(tables, integers, entries, slug@, offset, doc));
    let message = assigned_message(name, slug.as_str(), offset, target.as_str());
    Ok(Assigned { target, text: write_document(&doc), message })
}

/// A pin that was made is all that changed: other pins keep their offsets, and are
/// written as they were, comments and spacing with them.
pub proof fn law_other_pins_stay(
    tables: Map<Seq<Seq<char>>, bool>,
    integers: Map<Seq<Seq<char>>, int>,
    entries: Map<Seq<Seq<char>>, Seq<char>>,
    slug: Seq<char>,
    offset: u32,
    doc: DocumentMut,
    other: Seq<char>,
)
    requires
        pinned(tables, integers, entries, slug, offset, doc),
        other != slug,
    ensures
        tomldoc::doc_integers(doc).contains_key(pin_path(other)) == integers.contains_key(
            pin_path(other),
        ),
        integers.contains_key(pin_path(other)) ==> tomldoc::doc_integers(doc)[pin_path(other)]
            == integers[pin_path(other)],
        entries.contains_key(pin_path(other)) ==> tomldoc::doc_entries(doc).contains_key(
            pin_path(other),
        ) && tomldoc::doc_entries(doc)[pin_path(other)] == entries[pin_path(other)],
{
    let p = pin_path(slug);
    let q = pin_path(other);
    assert(!p.is_prefix_of(q)) by {
        assert(p[2] != q[2]);
        assert(q.take(3) =~= q);
    }
    assert(tomldoc::doc_integers(doc).contains_key(q) == integers.contains_key(q));
}

/// An identity says what a worktree goes by: its branch, or its directory without one,
/// or nothing outside a repository; and its offset is that of its slug under the
/// configuration.
pub proof fn law_identities_go_by_branch_or_directory(
    config: Config,
    here: Option<WorktreeListEntry>,
    dir: Seq<char>,
    identity: Identity,
)
    requires
        identifies(config, here, dir, identity),
    ensures
        here is None ==> identity.slug@.len() == 0 && identity.base_ref == BaseRef::NoRepository
            && identity.base_label@.len() == 0,
        here is Some ==> identity.slug@ == worktree::entry_slug(here->0),
        here is Some && here->0.branch is Some ==> identity.base_ref == BaseRef::Branch
            && identity.base_label@ == here->0.branch->0@,
        here is Some && here->0.branch is None ==> identity.base_ref == BaseRef::WorktreeDir
            && identity.base_label@ == dir,
        identity.offset == worktree::offset_of(
            identity.slug@,
            config.worktrees.assign@,
            config.worktrees.modulus,
            config.seed(),
        ),
{
    reveal_strlit("");
}

/// `status` has a line for every variable with a base, in the order of their names,
/// with the sum of base and offset, and for no other.
pub proof fn law_every_derived_variable_is_shown(config: Config, offset: u32)
    ensures
        ({
            let keys = config.env.keys();
            let lines = derived_lines(config, offset, keys.len());
            &&& lists::selects(
                lines,
                |i: int|
                    "  "@ + text::padded_right(keys[i], 20) + " = "@ + text::signed_digits(
                        base_value(config.env@[keys[i]].base->0@) + offset,
                    ) + "  (base "@ + text::signed_digits(
                        base_value(config.env@[keys[i]].base->0@),
                    ) + " + offset "@ + text::digits(offset as nat) + ")"@,
                |i: int| config.env@[keys[i]].base is Some,
                keys.len(),
            )
            &&& lines.len() > 0 ==> derived_text(config, offset) == seq!["\nderived env:"@] + lines
            &&& lines.len() == 0 ==> derived_text(config, offset).len() == 0
        }),
{
    lemma_derived_lines(config, offset, config.env.keys().len());
}

proof fn lemma_derived_lines(config: Config, offset: u32, n: nat)
    requires
        n <= config.env.keys().len(),
    ensures
        lists::selects(
            derived_lines(config, offset, n),
            |i: int|
                "  "@ + text::padded_right(config.env.keys()[i], 20) + " = "@
                    + text::signed_digits(
                    base_value(config.env@[config.env.keys()[i]].base->0@) + offset,
                ) + "  (base "@ + text::signed_digits(
                    base_value(config.env@[config.env.keys()[i]].base->0@),
                ) + " + offset "@ + text::digits(offset as nat) + ")"@,
            |i: int| config.env@[config.env.keys()[i]].base is Some,
            n,
        ),
    decreases n,
{
    let value = |i: int|
        "  "@ + text::padded_right(config.env.keys()[i], 20) + " = "@ + text::signed_digits(
            base_value(config.env@[config.env.keys()[i]].base->0@) + offset,
        ) + "  (base "@ + text::signed_digits(
            base_value(config.env@[config.env.keys()[i]].base->0@),
        ) + " + offset "@ + text::digits(offset as nat) + ")"@;
    let keep = |i: int| config.env@[config.env.keys()[i]].base is Some;
    if n == 0 {
        lists::lemma_selects_none(value, keep);
    } else {
        let m = (n - 1) as nat;
        lemma_derived_lines(config, offset, m);
        lists::lemma_selects_next(derived_lines(config, offset, m), value, keep, m);
    }
}

/// `status` prints the identity, then the compose project, exactly where the worktree
/// has a slug and is to have a project of its own, and then the derived variables.
pub proof fn law_status_shows_the_identity(config: Config, identity: Identity)
    ensures
        ({
            let lines = status_text(config, identity);
            let own = config.worktrees.isolate_compose && identity.slug@.len() > 0;
            let n = if own {
                7int
            } else {
                6int
            };
            &&& lines.len() == n + derived_text(config, identity.offset).len()
            &&& identity.slug@.len() > 0 ==> lines[0] == "slug:       "@ + identity.slug@
            &&& lines[1] == "base ref:   "@ + identity.base_label@
            &&& lines[3] == "offset:     "@ + text::digits(identity.offset as nat)
            &&& own && config.project.name is Some ==> lines[6] == "                  → "@
                + config.project.name->0@ + "-"@ + identity.slug@
            &&& lines.skip(n) == derived_text(config, identity.offset)
        }),
{
    let lines = status_text(config, identity);
    let own = config.worktrees.isolate_compose && identity.slug@.len() > 0;
    let n = if own {
        7int
    } else {
        6int
    };
    assert(lines.skip(n) =~= derived_text(config, identity.offset));
}

/// A worktree is shown as pinned exactly where its slug is.
pub proof fn law_pinned_worktrees_are_shown(
    row: ListRow,
    config: Config,
    entry: WorktreeListEntry,
    offset: u32,
)
    requires
        row_shows(row, config, entry, offset),
    ensures
        row.worktree@ == entry.path@,
        entry.branch is Some ==> row.branch@ == entry.branch->0@,
        entry.branch is None ==> row.branch@ == "<detached>"@,
        row.offset@ == text::digits(offset as nat),
        config.worktrees.assign@.contains_key(worktree::entry_slug(entry)) ==> row.source@
            == "pinned"@,
        !config.worktrees.assign@.contains_key(worktree::entry_slug(entry)) ==> row.source@
            == "hash"@,
        worktree::entry_slug(entry).len() > 0 ==> row.slug@ == worktree::entry_slug(entry),
{
}

/// An offset is shared exactly where two worktrees with a slug have it.
pub proof fn law_shared_offsets(
    entries: Seq<WorktreeListEntry>,
    offsets: Seq<u32>,
    offset: u32,
)
    requires
        offsets.len() == entries.len(),
    ensures
        shared(entries, offsets, entries.len() as int, offset) <==> exists|i: int, j: int|
            0 <= i < j < entries.len() && worktree::entry_slug(#[trigger] entries[i]).len() > 0
                && worktree::entry_slug(#[trigger] entries[j]).len() > 0 && offsets[i] == offset
                && offsets[j] == offset,
{
    let n = entries.len() as int;
    if shared(entries, offsets, n, offset) {
        let (i, j) = choose|i: int, j: int| #[trigger]
            clash(entries, offsets, i, j) && j < n && offsets[j] == offset;
        assert(worktree::entry_slug(entries[i]).len() > 0 && worktree::entry_slug(
            entries[j],
        ).len() > 0);
    }
    if exists|i: int, j: int|
        0 <= i < j < entries.len() && worktree::entry_slug(#[trigger] entries[i]).len() > 0
            && worktree::entry_slug(#[trigger] entries[j]).len() > 0 && offsets[i] == offset
            && offsets[j] == offset {
        let (i, j) = choose|i: int, j: int|
            0 <= i < j < entries.len() && worktree::entry_slug(#[trigger] entries[i]).len() > 0
                && worktree::entry_slug(#[trigger] entries[j]).len() > 0 && offsets[i] == offset
                && offsets[j] == offset;
        assert(clash(entries, offsets, i, j));
    }
}

/// A pin is made: the document has the offset under the slug among the pins, in tables
/// that are there, and every integer elsewhere is as it was.
pub proof fn law_a_pin_is_made(
    tables: Map<Seq<Seq<char>>, bool>,
    integers: Map<Seq<Seq<char>>, int>,
    entries: Map<Seq<Seq<char>>, Seq<char>>,
    slug: Seq<char>,
    offset: u32,
    doc: DocumentMut,
    other: Seq<Seq<char>>,
)
    requires
        pinned(tables, integers, entries, slug, offset, doc),
    ensures
        tomldoc::doc_integers(doc).contains_key(seq!["worktrees"@, "assign"@, slug]),
        tomldoc::doc_integers(doc)[seq!["worktrees"@, "assign"@, slug]] == offset,
        !seq!["worktrees"@, "assign"@, slug].is_prefix_of(other) ==> {
            &&& tomldoc::doc_integers(doc).contains_key(other) == integers.contains_key(other)
            &&& integers.contains_key(other) ==> tomldoc::doc_integers(doc)[other]
                == integers[other]
            &&& entries.contains_key(other) ==> tomldoc::doc_entries(doc).contains_key(other)
                && tomldoc::doc_entries(doc)[other] == entries[other]
            &&& tables.contains_key(other) ==> tomldoc::doc_tables(doc).contains_key(other)
                && tomldoc::doc_tables(doc)[other] == tables[other]
        },
{
    assert(pin_path(slug) =~= seq!["worktrees"@, "assign"@, slug]);
    if !pin_path(slug).is_prefix_of(other) {
        assert(tomldoc::doc_integers(doc).contains_key(other) == integers.contains_key(other));
        assert(tomldoc::doc_tables(doc).contains_key(other) == pins_opened(tables).contains_key(
            other,
        ));
        if entries.contains_key(other) {
            assert(tomldoc::doc_entries(doc).contains_key(other));
        }
    }
}

/// A pin is refused exactly where something other than a table stands where the table
/// of pins, or the one around it, belongs.
pub proof fn law_pins_need_tables(tables: Map<Seq<Seq<char>>, bool>)
    ensures
        ({
            let outer = seq!["worktrees"@];
            let inner = seq!["worktrees"@, "assign"@];
            let in_the_way = |p: Seq<Seq<char>>| tables.contains_key(p) && !tables[p];
            &&& obstacle(tables) is None <==> !in_the_way(outer) && !in_the_way(inner)
            &&& in_the_way(outer) ==> obstacle(tables) == Some("worktrees"@)
            &&& !in_the_way(outer) && in_the_way(inner) ==> obstacle(tables) == Some(
                "worktrees.assign"@,
            )
        }),
{
    let outer = seq!["worktrees"@];
    let inner = seq!["worktrees"@, "assign"@];
    assert(pins_path() =~= inner);
    assert(outer.len() == 1 && inner.len() == 2);
}

/// A pin for this checkout alone is kept apart from the configuration that is shared.
pub proof fn law_local_pins_are_apart(project_root: Seq<char>)
    ensures
        target_of(project_root, false) == paths::joined_path(project_root, "croft.toml"@),
        target_of(project_root, true) == paths::joined_path(
            paths::joined_path(project_root, ".croft"@),
            "local.toml"@,
        ),
{
}

/// What is said of a pin names the slug, the name where that is another, the offset and
/// the file.
pub proof fn law_pins_are_told(name: Seq<char>, slug: Seq<char>, offset: u32, target: Seq<char>)
    ensures
        slug == name ==> assigned_text(name, slug, offset, target) == "Pinned `"@ + slug + "`"@
            + " → offset "@ + text::digits(offset as nat) + " in "@ + target,
        slug != name ==> assigned_text(name, slug, offset, target) == "Pinned `"@ + slug + (
        "` (from `"@ + name + "`)"@) + " → offset "@ + text::digits(offset as nat) + " in "@
            + target,
{
}

/// The warning counts the shared offsets and names every one.
pub proof fn law_the_warning_names_every_shared_offset(shared: Seq<u32>)
    ensures
        ({
            let lines = warning_text(shared);
            &&& lines.len() == 2
            &&& lines[0] == "\nwarning: "@ + text::digits(shared.len())
                + " offset(s) collide between worktrees: {"@ + text::joined(
                Seq::new(shared.len(), |i: int| text::digits(shared[i] as nat)),
                ", "@,
            ) + "}"@
            &&& lines[1]
                == "         pin a slug with `croft worktree assign <name> <offset>` to dodge."@
        }),
{
    assert(numerals(shared) =~= Seq::new(shared.len(), |i: int| text::digits(shared[i] as nat)));
}

/// The words of the status: what the identity comes from, where the offset comes from,
/// and what becomes of the compose project.
pub proof fn law_the_status_explains_itself(config: Config, identity: Identity)
    ensures
        ({
            let lines = status_text(config, identity);
            let slug = identity.slug@;
            let base = match identity.base_ref {
                BaseRef::Branch => "branch"@,
                BaseRef::DetachedSha => "detached SHA"@,
                BaseRef::WorktreeDir => "worktree dir"@,
                BaseRef::NoRepository => "none (not a git repo)"@,
            };
            let source = if config.worktrees.assign@.contains_key(slug) {
                "pinned"@
            } else if slug.len() > 0 {
                "hash"@
            } else {
                "n/a"@
            };
            let isolated = config.worktrees.isolate_compose;
            let fate = if slug.len() > 0 && isolated {
                "applied"@
            } else if slug.len() > 0 {
                "skipped — disabled"@
            } else {
                "skipped — no slug"@
            };
            &&& slug.len() == 0 ==> lines[0] == "slug:       "@ + "<empty>"@
            &&& lines[2] == "base kind:  "@ + base
            &&& lines[4] == "modulus:    "@ + text::digits(config.worktrees.modulus as nat)
                + " (assignment: "@ + source + ")"@
            &&& isolated ==> lines[5] == "isolate:    "@ + "true"@ + " (compose project name "@
                + fate + ")"@
            &&& !isolated ==> lines[5] == "isolate:    "@ + "false"@ + " (compose project name "@
                + fate + ")"@
            &&& isolated && slug.len() > 0 && config.project.name is None ==> lines[6]
                == "                  → "@ + "croft"@ + "-"@ + slug
        }),
{
}

/// Why nothing was pinned.
pub proof fn law_refused_pins_are_explained(fault: AssignFault)
    ensures
        fault matches AssignFault::EmptySlug { name } ==> fault.text() == "`"@ + name@
            + "` slugifies to an empty string; nothing to pin"@,
        fault matches AssignFault::Unreadable { target, reason } ==> fault.text() == "parse "@
            + target@,
        fault matches AssignFault::NotATable { key } ==> fault.text() == "`"@ + key@
            + "` is not a table"@,
{
}

} // verus!
