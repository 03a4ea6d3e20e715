//! From an upstream manifest and the project's overrides to the list of files to
//! write.
use crate::agents::error;
use crate::agents::error::AgentsError;
use crate::agents::manifest;
use crate::agents::manifest::{
    glob_complaint, DirMapping, FileMapping, FileMode, UpstreamManifest,
};
use crate::config::agents;
use crate::config::agents::{first_malformed, MappingOverride, ResolvedOverride, SourceSpec};
use crate::globs;
use crate::globs::{build_glob_set, set_matches};
use crate::paths;
use crate::paths::join_path;
use crate::text;
use crate::text::concat3;
use crate::lists;
use vstd::prelude::*;

verus! {

/// One file and where it goes, once manifest and overrides are in.
#[derive(Debug, PartialEq, Eq)]
pub struct ResolvedEntry {
    /// The source that it comes from.
    pub source_name: String,
    /// Where it stands inside the clone.
    pub src_abs: String,
    /// The same, relative to the source's root.
    pub src_rel: String,
    /// Where it goes, relative to the project.
    pub dest: String,
    pub mode: FileMode,
}

/// What a [`ResolvedEntry`] says.
pub ghost struct EntryModel {
    pub source_name: Seq<char>,
    pub src_abs: Seq<char>,
    pub src_rel: Seq<char>,
    pub dest: Seq<char>,
    pub mode: FileMode,
}

impl DeepView for ResolvedEntry {
    type V = EntryModel;

    open spec fn deep_view(&self) -> EntryModel {
        EntryModel {
            source_name: self.source_name@,
            src_abs: self.src_abs@,
            src_rel: self.src_rel@,
            dest: self.dest@,
            mode: self.mode,
        }
    }
}

/// What was found below the directory of a mapping.
#[derive(Debug, PartialEq, Eq)]
pub struct DirScan {
    /// Whether the directory is there.
    pub exists: bool,
    /// The files below it, relative to it.
    pub files: Vec<String>,
}

// ---------------------------------------------------------------------------
// Overrides
// ---------------------------------------------------------------------------
/// What the last of the first `n` overrides for that destination does.
pub open spec fn override_for(
    overrides: Seq<MappingOverride>,
    n: nat,
    dest: Seq<char>,
) -> Option<agents::OverrideEffect>
    decreases n,
{
    if n == 0 {
        None
    } else if paths::components_of(overrides[n - 1].dest@) == paths::components_of(dest) {
        match overrides[n - 1].effect() {
            Ok(effect) => Some(effect),
            Err(_) => None,
        }
    } else {
        override_for(overrides, (n - 1) as nat, dest)
    }
}

/// A mapping once the overrides are in: none when it is skipped.
pub open spec fn placed(source: SourceSpec, entry: EntryModel) -> Option<EntryModel> {
    match override_for(source.overrides@, source.overrides@.len(), entry.dest) {
        Some(agents::OverrideEffect::Skip) => None,
        Some(agents::OverrideEffect::Relocate(to)) => Some(EntryModel { dest: to, ..entry }),
        None => Some(entry),
    }
}

/// The override entries of a source that are well formed.
pub open spec fn overrides_valid(source: SourceSpec) -> bool {
    agents::overrides_error(source.overrides@, source.overrides@.len()) is None
}

proof fn lemma_override_valid(overrides: Seq<MappingOverride>, n: nat, i: int)
    requires
        agents::overrides_error(overrides, n) is None,
        0 <= i < n,
    ensures
        overrides[i].effect() is Ok,
    decreases n,
{
    if i < n - 1 {
        lemma_override_valid(overrides, (n - 1) as nat, i);
    }
}

/// Checks that every override is well formed.
pub fn check_overrides(source: &SourceSpec) -> (res: Result<(), AgentsError>)
    ensures
        match res {
            Ok(_) => overrides_valid(*source),
            Err(e) => agents::overrides_error(source.overrides@, source.overrides@.len()) is Some
                && e@ == error::Fault::Config(
                agents::overrides_error(source.overrides@, source.overrides@.len())->0,
            ),
        },
{
    match first_malformed(&source.overrides) {
        Ok(_) => Ok(()),
        Err(e) => Err(AgentsError::Config(e)),
    }
}

fn find_override(source: &SourceSpec, dest: &str) -> (res: Option<ResolvedOverride>)
    requires
        overrides_valid(*source),
    ensures
        match res {
            Some(o) => override_for(source.overrides@, source.overrides@.len(), dest@) == Some(o@),
            None => override_for(source.overrides@, source.overrides@.len(), dest@) is None,
        },
{
    let mut n: usize = source.overrides.len();
    while n > 0
        invariant
            n <= source.overrides@.len(),
            overrides_valid(*source),
            override_for(source.overrides@, n as nat, dest@) == override_for(
                source.overrides@,
                source.overrides@.len(),
                dest@,
            ),
        decreases n,
    {
        let o = &source.overrides[n - 1];
        if paths::same_path(o.dest.as_str(), dest) {
            proof {
                lemma_override_valid(source.overrides@, source.overrides@.len(), n - 1);
            }
            return match o.resolved() {
                Ok(r) => Some(r),
                Err(_) => None,
            };
        }
        n -= 1;
    }
    None
}

fn place(source: &SourceSpec, entry: ResolvedEntry) -> (res: Option<ResolvedEntry>)
    requires
        overrides_valid(*source),
    ensures
        res.deep_view() == placed(*source, entry.deep_view()),
{
    match find_override(source, entry.dest.as_str()) {
        Some(ResolvedOverride::Skip) => None,
        Some(ResolvedOverride::Relocate(to)) => {
            let ResolvedEntry { source_name, src_abs, src_rel, dest, mode } = entry;
            Some(ResolvedEntry { source_name, src_abs, src_rel, dest: to, mode })
        },
        None => Some(entry),
    }
}

/// `entries` with `entry` behind them, unless it was skipped.
pub open spec fn with_entry(entries: Seq<EntryModel>, entry: Option<EntryModel>) -> Seq<EntryModel> {
    match entry {
        Some(e) => entries.push(e),
        None => entries,
    }
}

fn push_entry(entries: &mut Vec<ResolvedEntry>, entry: Option<ResolvedEntry>)
    ensures
        final(entries).deep_view() == with_entry(old(entries).deep_view(), entry.deep_view()),
{
    let ghost before = entries.deep_view();
    match entry {
        Some(e) => {
            entries.push(e);
            assert(entries.deep_view() =~= before.push(e.deep_view()));
        },
        None => {},
    }
}

// ---------------------------------------------------------------------------
// Mappings
// ---------------------------------------------------------------------------
/// The directory that the paths of a source are relative to.
pub open spec fn root_of(source: SourceSpec, clone_root: Seq<char>) -> Seq<char> {
    match source.subpath {
        Some(s) => if s@.len() > 0 {
            paths::joined_path(clone_root, s@)
        } else {
            clone_root
        },
        None => clone_root,
    }
}

/// The directory that the paths of a source are relative to: the clone, or its
/// subpath.
pub fn source_root(source: &SourceSpec, clone_root: &str) -> (res: String)
    ensures
        res@ == root_of(*source, clone_root@),
{
    match &source.subpath {
        Some(s) => if s.as_str().is_empty() {
            clone_root.to_owned()
        } else {
            join_path(clone_root, s.as_str())
        },
        None => clone_root.to_owned(),
    }
}

/// The entry of a file mapping before overrides.
pub open spec fn file_entry(source: SourceSpec, root: Seq<char>, file: FileMapping) -> EntryModel {
    EntryModel {
        source_name: source.name@,
        src_abs: paths::joined_path(root, file.src@),
        src_rel: file.src@,
        dest: file.dest@,
        mode: file.mode,
    }
}

/// The entries of the first `n` file mappings.
pub open spec fn file_entries(
    source: SourceSpec,
    root: Seq<char>,
    files: Seq<FileMapping>,
    n: nat,
) -> Seq<EntryModel>
    decreases n,
{
    if n == 0 {
        seq![]
    } else {
        with_entry(
            file_entries(source, root, files, (n - 1) as nat),
            placed(source, file_entry(source, root, files[n - 1])),
        )
    }
}

/// The entries of file mappings, in order.
pub fn expand_files(source: &SourceSpec, root: &str, files: &Vec<FileMapping>) -> (res: Vec<
    ResolvedEntry,
>)
    requires
        overrides_valid(*source),
    ensures
        res.deep_view() == file_entries(*source, root@, files@, files@.len()),
{
    let mut entries: Vec<ResolvedEntry> = Vec::new();
    assert(entries.deep_view() =~= Seq::<EntryModel>::empty());
    let mut i: usize = 0;
    while i < files.len()
        invariant
            i <= files@.len(),
            overrides_valid(*source),
            entries.deep_view() == file_entries(*source, root@, files@, i as nat),
        decreases files@.len() - i,
    {
        let f = &files[i];
        let entry = ResolvedEntry {
            source_name: source.name.clone(),
            src_abs: join_path(root, f.src.as_str()),
            src_rel: f.src.clone(),
            dest: f.dest.clone(),
            mode: f.mode,
        };
        let kept = place(source, entry);
        push_entry(&mut entries, kept);
        i += 1;
    }
    entries
}

/// A path below a prefix, with one separator between them.
pub open spec fn below_prefix(prefix: Seq<char>, rel: Seq<char>) -> Seq<char> {
    if prefix.len() == 0 {
        rel
    } else {
        text::trim_end_char(prefix, '/') + "/"@ + rel
    }
}

fn join_str(prefix: &str, rel: &str) -> (res: String)
    ensures
        res@ == below_prefix(prefix@, rel@),
{
    if prefix.is_empty() {
        return rel.to_owned();
    }
    let trimmed = text::trim_end_matches(prefix, '/');
    concat3(trimmed.as_str(), "/", rel)
}

/// The entry of a file below a directory mapping, before overrides.
pub open spec fn nested_entry(
    source: SourceSpec,
    root: Seq<char>,
    dir: DirMapping,
    rel: Seq<char>,
) -> EntryModel {
    EntryModel {
        source_name: source.name@,
        src_abs: paths::joined_path(paths::joined_path(root, dir.src@), rel),
        src_rel: below_prefix(dir.src@, rel),
        dest: paths::joined_path(dir.dest@, rel),
        mode: dir.mode,
    }
}

/// The entries of those of the first `n` files below a directory mapping that
/// `picked` marks.
pub open spec fn dir_entries(
    source: SourceSpec,
    root: Seq<char>,
    dir: DirMapping,
    rels: Seq<Seq<char>>,
    picked: Seq<bool>,
    n: nat,
) -> Seq<EntryModel>
    decreases n,
{
    if n == 0 {
        seq![]
    } else {
        let before = dir_entries(source, root, dir, rels, picked, (n - 1) as nat);
        if picked[n - 1] {
            with_entry(before, placed(source, nested_entry(source, root, dir, rels[n - 1])))
        } else {
            before
        }
    }
}

/// The entries of the marked files below a directory mapping, in order.
pub fn expand_dir(
    source: &SourceSpec,
    root: &str,
    dir: &DirMapping,
    rels: &Vec<String>,
    picked: &Vec<bool>,
) -> (res: Vec<ResolvedEntry>)
    requires
        overrides_valid(*source),
        picked@.len() == rels@.len(),
    ensures
        res.deep_view() == dir_entries(
            *source,
            root@,
            *dir,
            rels.deep_view(),
            picked@,
            rels@.len(),
        ),
{
    let base = join_path(root, dir.src.as_str());
    let ghost all = rels.deep_view();
    let mut entries: Vec<ResolvedEntry> = Vec::new();
    assert(entries.deep_view() =~= Seq::<EntryModel>::empty());
    let mut i: usize = 0;
    while i < rels.len()
        invariant
            i <= rels@.len(),
            picked@.len() == rels@.len(),
            all == rels.deep_view(),
            base@ == paths::joined_path(root@, dir.src@),
            overrides_valid(*source),
            entries.deep_view() == dir_entries(*source, root@, *dir, all, picked@, i as nat),
        decreases rels@.len() - i,
    {
        assert(all[i as int] == rels@[i as int]@);
        if picked[i] {
            let rel = rels[i].as_str();
            let entry = ResolvedEntry {
                source_name: source.name.clone(),
                src_abs: join_path(base.as_str(), rel),
                src_rel: join_str(dir.src.as_str(), rel),
                dest: join_path(dir.dest.as_str(), rel),
                mode: dir.mode,
            };
            let kept = place(source, entry);
            push_entry(&mut entries, kept);
        }
        i += 1;
    }
    entries
}

/// Which files a glob picks; every one where there is no glob.
pub open spec fn picked_by(glob: Option<Seq<char>>, rels: Seq<Seq<char>>) -> Seq<bool> {
    rels.map_values(
        |rel: Seq<char>|
            match glob {
                Some(g) => globs::glob_matches(g, rel),
                None => true,
            },
    )
}

/// Why the glob of a directory mapping cannot be used.
pub open spec fn usable_error(glob: Option<Seq<char>>) -> Option<Seq<char>> {
    match manifest::pattern_error(glob) {
        Some(e) => Some(e),
        None => match glob {
            Some(g) => match globs::glob_set_error(seq![g]) {
                Some(e) => Some("invalid glob `"@ + g + "`: "@ + e),
                None => None,
            },
            None => None,
        },
    }
}

/// Marks the files that a glob picks.
pub fn pick(glob: &Option<String>, rels: &Vec<String>) -> (res: Result<Vec<bool>, String>)
    ensures
        match res {
            Ok(picked) => usable_error(glob.deep_view()) is None && picked@ == picked_by(
                glob.deep_view(),
                rels.deep_view(),
            ),
            Err(e) => usable_error(glob.deep_view()) == Some(e@),
        },
{
    let ghost want = picked_by(glob.deep_view(), rels.deep_view());
    let ghost all = rels.deep_view();
    let mut picked: Vec<bool> = Vec::new();
    match glob {
        Some(g) => {
            let mut one: Vec<String> = Vec::new();
            one.push(g.clone());
            let ghost pattern = g@;
            assert(one.deep_view() =~= seq![pattern]);
            assert(one.deep_view()[0] == pattern);
            let set = match build_glob_set(&one) {
                Ok(set) => set,
                Err(failure) => {
                    proof {
                        let patterns = one.deep_view();
                        if exists|i: int| #[trigger] globs::first_invalid(patterns, i) {
                            let i = choose|i: int| #[trigger] globs::first_invalid(patterns, i);
                            assert(i == 0);
                        }
                    }
                    return Err(glob_complaint(g.as_str(), failure.message.as_str()));
                },
            };
            let mut i: usize = 0;
            while i < rels.len()
                invariant
                    i <= rels@.len(),
                    all == rels.deep_view(),
                    globs::set_globs(set) == seq![pattern],
                    want == picked_by(Some(pattern), all),
                    picked@ == want.take(i as int),
                decreases rels@.len() - i,
            {
                assert(all[i as int] == rels@[i as int]@);
                let hit = set_matches(&set, rels[i].as_str());
                proof {
                    let globs_in = globs::set_globs(set);
                    assert(globs_in[0] == pattern);
                    assert(hit == globs::glob_matches(pattern, all[i as int]));
                }
                picked.push(hit);
                assert(picked@ =~= want.take(i + 1));
                i += 1;
            }
        },
        None => {
            let mut i: usize = 0;
            while i < rels.len()
                invariant
                    i <= rels@.len(),
                    all == rels.deep_view(),
                    want == picked_by(None, all),
                    picked@ == want.take(i as int),
                decreases rels@.len() - i,
            {
                picked.push(true);
                assert(picked@ =~= want.take(i + 1));
                i += 1;
            }
        },
    }
    assert(picked@ =~= want);
    Ok(picked)
}

// ---------------------------------------------------------------------------
// Sources
// ---------------------------------------------------------------------------
/// Why a directory mapping cannot be expanded: the directory is missing, or the
/// glob is unusable.
pub open spec fn dir_fault(
    source: SourceSpec,
    root: Seq<char>,
    dir: DirMapping,
    scan: DirScan,
) -> Option<error::Fault> {
    let path = paths::joined_path(root, dir.src@);
    if !scan.exists {
        Some(
            error::Fault::ManifestInvalid {
                path,
                message: "source `"@ + source.name@ + "`: dir mapping src `"@ + dir.src@
                    + "` not found inside upstream clone"@,
            },
        )
    } else {
        match usable_error(dir.glob.deep_view()) {
            Some(message) => Some(error::Fault::ManifestInvalid { path, message }),
            None => None,
        }
    }
}

/// The entries of the first `n` directory mappings, or why the first one that
/// fails does.
pub open spec fn dirs_expanded(
    source: SourceSpec,
    root: Seq<char>,
    dirs: Seq<DirMapping>,
    scans: Seq<DirScan>,
    n: nat,
) -> Result<Seq<EntryModel>, error::Fault>
    decreases n,
{
    if n == 0 {
        Ok(seq![])
    } else {
        match dirs_expanded(source, root, dirs, scans, (n - 1) as nat) {
            Err(e) => Err(e),
            Ok(before) => {
                let dir = dirs[n - 1];
                let scan = scans[n - 1];
                let rels = scan.files.deep_view();
                match dir_fault(source, root, dir, scan) {
                    Some(e) => Err(e),
                    None => Ok(
                        before + dir_entries(
                            source,
                            root,
                            dir,
                            rels,
                            picked_by(dir.glob.deep_view(), rels),
                            rels.len(),
                        ),
                    ),
                }
            },
        }
    }
}

/// The entries of a source, files before directories, or why it fails.
pub open spec fn expanded(
    source: SourceSpec,
    clone_root: Seq<char>,
    m: UpstreamManifest,
    scans: Seq<DirScan>,
) -> Result<Seq<EntryModel>, error::Fault> {
    let root = root_of(source, clone_root);
    match agents::overrides_error(source.overrides@, source.overrides@.len()) {
        Some(e) => Err(error::Fault::Config(e)),
        None => match dirs_expanded(source, root, m.dirs@, scans, m.dirs@.len()) {
            Ok(more) => Ok(file_entries(source, root, m.files@, m.files@.len()) + more),
            Err(e) => Err(e),
        },
    }
}

fn expand_scanned(source: &SourceSpec, root: &str, dir: &DirMapping, scan: &DirScan) -> (res: Result<
    Vec<ResolvedEntry>,
    AgentsError,
>)
    requires
        overrides_valid(*source),
    ensures
        match res {
            Ok(entries) => dir_fault(*source, root@, *dir, *scan) is None && entries.deep_view()
                == dir_entries(
                *source,
                root@,
                *dir,
                scan.files.deep_view(),
                picked_by(dir.glob.deep_view(), scan.files.deep_view()),
                scan.files.deep_view().len(),
            ),
            Err(e) => dir_fault(*source, root@, *dir, *scan) == Some(e@),
        },
{
    let path = join_path(root, dir.src.as_str());
    if !scan.exists {
        let head = concat3("source `", source.name.as_str(), "`: dir mapping src `");
        let message = concat3(
            head.as_str(),
            dir.src.as_str(),
            "` not found inside upstream clone",
        );
        return Err(AgentsError::ManifestInvalid { path, message });
    }
    match pick(&dir.glob, &scan.files) {
        Ok(picked) => {
            assert(scan.files.deep_view().len() == scan.files@.len());
            assert(picked@.len() == scan.files@.len());
            Ok(expand_dir(source, root, dir, &scan.files, &picked))
        },
        Err(message) => Err(AgentsError::ManifestInvalid { path, message }),
    }
}

proof fn lemma_dirs_fault_stays(
    source: SourceSpec,
    root: Seq<char>,
    dirs: Seq<DirMapping>,
    scans: Seq<DirScan>,
    n: nat,
    m: nat,
)
    requires
        n <= m,
        dirs_expanded(source, root, dirs, scans, n) is Err,
    ensures
        dirs_expanded(source, root, dirs, scans, m) == dirs_expanded(source, root, dirs, scans, n),
    decreases m,
{
    if n < m {
        lemma_dirs_fault_stays(source, root, dirs, scans, n, (m - 1) as nat);
    }
}

/// Expands the manifest of a source into entries, given what stands below each of
/// its directories. A malformed override, a missing directory or an unusable glob
/// fails the whole source.
pub fn expand_source(
    source: &SourceSpec,
    clone_root: &str,
    m: &UpstreamManifest,
    scans: &Vec<DirScan>,
) -> (res: Result<Vec<ResolvedEntry>, AgentsError>)
    requires
        scans@.len() == m.dirs@.len(),
    ensures
        match res {
            Ok(entries) => expanded(*source, clone_root@, *m, scans@) == Ok::<
                Seq<EntryModel>,
                error::Fault,
            >(entries.deep_view()),
            Err(e) => expanded(*source, clone_root@, *m, scans@) == Err::<
                Seq<EntryModel>,
                error::Fault,
            >(e@),
        },
{
    match check_overrides(source) {
        Ok(_) => {},
        Err(e) => return Err(e),
    }
    let root = source_root(source, clone_root);
    let ghost rootv = root@;
    let mut entries = expand_files(source, root.as_str(), &m.files);
    let ghost files = entries.deep_view();
    let mut i: usize = 0;
    assert(entries.deep_view() =~= files + dirs_expanded(*source, rootv, m.dirs@, scans@, 0)->Ok_0);
    while i < m.dirs.len()
        invariant
            i <= m.dirs@.len() == scans@.len(),
            overrides_valid(*source),
            rootv == root@,
            rootv == root_of(*source, clone_root@),
            files == file_entries(*source, rootv, m.files@, m.files@.len()),
            dirs_expanded(*source, rootv, m.dirs@, scans@, i as nat) is Ok,
            entries.deep_view() == files + dirs_expanded(
                *source,
                rootv,
                m.dirs@,
                scans@,
                i as nat,
            )->Ok_0,
        decreases m.dirs@.len() - i,
    {
        let ghost before = dirs_expanded(*source, rootv, m.dirs@, scans@, i as nat)->Ok_0;
        match expand_scanned(source, root.as_str(), &m.dirs[i], &scans[i]) {
            Ok(more) => {
                let mut rest = more;
                let ghost added = rest.deep_view();
                let ghost had = entries.deep_view();
                entries.append(&mut rest);
                assert(entries.deep_view() =~= had + added);
                assert(files + before + added =~= files + (before + added));
            },
            Err(e) => {
                proof {
                    lemma_dirs_fault_stays(
                        *source,
                        rootv,
                        m.dirs@,
                        scans@,
                        (i + 1) as nat,
                        m.dirs@.len(),
                    );
                }
                return Err(e);
            },
        }
        i += 1;
    }
    Ok(entries)
}

// ---------------------------------------------------------------------------
// Laws
// ---------------------------------------------------------------------------
/// The last override of a destination decides: skipping drops the mapping,
/// relocating changes its destination and nothing else.
pub proof fn law_last_override_decides(source: SourceSpec, entry: EntryModel)
    requires
        overrides_valid(source),
        source.overrides@.len() > 0,
        paths::components_of(source.overrides@.last().dest@) == paths::components_of(entry.dest),
    ensures
        source.overrides@.last().action is Some ==> placed(source, entry) is None,
        source.overrides@.last().relocate matches Some(to) ==> placed(source, entry) == Some(
            EntryModel { dest: to@, ..entry },
        ),
{
    lemma_override_valid(
        source.overrides@,
        source.overrides@.len(),
        source.overrides@.len() - 1,
    );
}

/// A destination without an override is kept as upstream declares it.
pub proof fn law_other_mappings_stay(source: SourceSpec, entry: EntryModel)
    requires
        forall|i: int|
            0 <= i < source.overrides@.len() ==> paths::components_of(
                (#[trigger] source.overrides@[i]).dest@,
            ) != paths::components_of(entry.dest),
    ensures
        placed(source, entry) == Some(entry),
{
    lemma_no_override(source.overrides@, source.overrides@.len(), entry.dest);
}

proof fn lemma_no_override(overrides: Seq<MappingOverride>, n: nat, dest: Seq<char>)
    requires
        n <= overrides.len(),
        forall|i: int|
            0 <= i < overrides.len() ==> paths::components_of((#[trigger] overrides[i]).dest@)
                != paths::components_of(dest),
    ensures
        override_for(overrides, n, dest) is None,
    decreases n,
{
    if n > 0 {
        assert(paths::components_of(overrides[n - 1].dest@) != paths::components_of(dest));
        lemma_no_override(overrides, (n - 1) as nat, dest);
    }
}

/// Every file mapping of a manifest that no override skips becomes an entry, in order:
/// from its place in the clone to its destination, or to where it is relocated.
pub proof fn law_every_file_mapping_is_written(
    source: SourceSpec,
    root: Seq<char>,
    files: Seq<FileMapping>,
)
    ensures
        lists::selects(
            file_entries(source, root, files, files.len()),
            |i: int| placed(source, file_entry(source, root, files[i]))->0,
            |i: int| placed(source, file_entry(source, root, files[i])) is Some,
            files.len(),
        ),
        forall|i: int|
            0 <= i < files.len() ==> {
                let e = file_entry(source, root, #[trigger] files[i]);
                &&& e.source_name == source.name@
                &&& e.src_abs == paths::joined_path(root, files[i].src@)
                &&& e.src_rel == files[i].src@
                &&& e.dest == files[i].dest@
                &&& e.mode == files[i].mode
            },
{
    lemma_file_entries(source, root, files, files.len());
}

proof fn lemma_file_entries(
    source: SourceSpec,
    root: Seq<char>,
    files: Seq<FileMapping>,
    n: nat,
)
    requires
        n <= files.len(),
    ensures
        lists::selects(
            file_entries(source, root, files, n),
            |i: int| placed(source, file_entry(source, root, files[i]))->0,
            |i: int| placed(source, file_entry(source, root, files[i])) is Some,
            n,
        ),
    decreases n,
{
    let value = |i: int| placed(source, file_entry(source, root, files[i]))->0;
    let keep = |i: int| placed(source, file_entry(source, root, files[i])) is Some;
    if n == 0 {
        lists::lemma_selects_none(value, keep);
    } else {
        let m = (n - 1) as nat;
        lemma_file_entries(source, root, files, m);
        lists::lemma_selects_next(file_entries(source, root, files, m), value, keep, m);
    }
}

/// Every file below a directory mapping that its glob matches, or every file where it
/// has none, becomes an entry unless an override skips it, in order: from its place in
/// the clone to the same place below the destination.
pub proof fn law_every_picked_file_is_written(
    source: SourceSpec,
    root: Seq<char>,
    dir: DirMapping,
    rels: Seq<Seq<char>>,
)
    ensures
        lists::selects(
            dir_entries(source, root, dir, rels, picked_by(dir.glob.deep_view(), rels), rels.len()),
            |i: int| placed(source, nested_entry(source, root, dir, rels[i]))->0,
            |i: int|
                (dir.glob is None || globs::glob_matches(dir.glob->0@, rels[i])) && placed(
                    source,
                    nested_entry(source, root, dir, rels[i]),
                ) is Some,
            rels.len(),
        ),
        forall|i: int|
            0 <= i < rels.len() ==> {
                let e = nested_entry(source, root, dir, #[trigger] rels[i]);
                &&& e.source_name == source.name@
                &&& e.src_abs == paths::joined_path(paths::joined_path(root, dir.src@), rels[i])
                &&& e.dest == paths::joined_path(dir.dest@, rels[i])
                &&& e.mode == dir.mode
            },
{
    lemma_dir_entries(source, root, dir, rels, rels.len());
}

proof fn lemma_dir_entries(
    source: SourceSpec,
    root: Seq<char>,
    dir: DirMapping,
    rels: Seq<Seq<char>>,
    n: nat,
)
    requires
        n <= rels.len(),
    ensures
        lists::selects(
            dir_entries(source, root, dir, rels, picked_by(dir.glob.deep_view(), rels), n),
            |i: int| placed(source, nested_entry(source, root, dir, rels[i]))->0,
            |i: int|
                (dir.glob is None || globs::glob_matches(dir.glob->0@, rels[i])) && placed(
                    source,
                    nested_entry(source, root, dir, rels[i]),
                ) is Some,
            n,
        ),
    decreases n,
{
    let value = |i: int| placed(source, nested_entry(source, root, dir, rels[i]))->0;
    let keep = |i: int|
        (dir.glob is None || globs::glob_matches(dir.glob->0@, rels[i])) && placed(
            source,
            nested_entry(source, root, dir, rels[i]),
        ) is Some;
    let picked = picked_by(dir.glob.deep_view(), rels);
    if n == 0 {
        lists::lemma_selects_none(value, keep);
    } else {
        let m = (n - 1) as nat;
        lemma_dir_entries(source, root, dir, rels, m);
        lists::lemma_selects_next(dir_entries(source, root, dir, rels, picked, m), value, keep, m);
    }
}

/// A source is expanded exactly where its overrides are well formed and every
/// directory is there with a usable glob. Then its entries are those of its files,
/// followed by those of each directory in turn.
pub proof fn law_a_source_is_expanded_whole(
    source: SourceSpec,
    clone_root: Seq<char>,
    m: UpstreamManifest,
    scans: Seq<DirScan>,
)
    requires
        scans.len() == m.dirs@.len(),
    ensures
        ({
            let root = if source.subpath is Some && source.subpath->0@.len() > 0 {
                paths::joined_path(clone_root, source.subpath->0@)
            } else {
                clone_root
            };
            let files = file_entries(source, root, m.files@, m.files@.len());
            let out = expanded(source, clone_root, m, scans);
            &&& out is Ok <==> overrides_valid(source) && forall|i: int|
                0 <= i < m.dirs@.len() ==> (#[trigger] scans[i]).exists && usable_error(
                    m.dirs@[i].glob.deep_view(),
                ) is None
            &&& out is Ok ==> files.is_prefix_of(out->Ok_0) && lists::chains(
                out->Ok_0.skip(files.len() as int),
                |i: int|
                    dir_entries(
                        source,
                        root,
                        m.dirs@[i],
                        scans[i].files.deep_view(),
                        picked_by(m.dirs@[i].glob.deep_view(), scans[i].files.deep_view()),
                        scans[i].files@.len(),
                    ),
                m.dirs@.len(),
            )
        }),
{
    let root = root_of(source, clone_root);
    lemma_dirs_fit(source, root, m.dirs@, scans, m.dirs@.len());
    lemma_dirs_expanded(source, root, m.dirs@, scans, m.dirs@.len());
    let files = file_entries(source, root, m.files@, m.files@.len());
    let out = expanded(source, clone_root, m, scans);
    if out is Ok {
        let more = dirs_expanded(source, root, m.dirs@, scans, m.dirs@.len())->Ok_0;
        assert(out->Ok_0.skip(files.len() as int) =~= more);
        assert(out->Ok_0.take(files.len() as int) =~= files);
    }
}

proof fn lemma_dirs_fit(
    source: SourceSpec,
    root: Seq<char>,
    dirs: Seq<DirMapping>,
    scans: Seq<DirScan>,
    n: nat,
)
    requires
        n <= dirs.len(),
        scans.len() == dirs.len(),
    ensures
        dirs_expanded(source, root, dirs, scans, n) is Ok <==> forall|i: int|
            0 <= i < n ==> (#[trigger] scans[i]).exists && usable_error(dirs[i].glob.deep_view())
                is None,
    decreases n,
{
    if n > 0 {
        lemma_dirs_fit(source, root, dirs, scans, (n - 1) as nat);
        assert(dir_fault(source, root, dirs[n - 1], scans[n - 1]) is None <==> scans[n - 1].exists
            && usable_error(dirs[n - 1].glob.deep_view()) is None);
    }
}

#[verifier::spinoff_prover]
#[verifier::rlimit(60)]
proof fn lemma_dirs_expanded(
    source: SourceSpec,
    root: Seq<char>,
    dirs: Seq<DirMapping>,
    scans: Seq<DirScan>,
    n: nat,
)
    requires
        n <= dirs.len(),
        scans.len() == dirs.len(),
    ensures
        dirs_expanded(source, root, dirs, scans, n) is Ok ==> lists::chains(
            dirs_expanded(source, root, dirs, scans, n)->Ok_0,
            |i: int|
                dir_entries(
                    source,
                    root,
                    dirs[i],
                    scans[i].files.deep_view(),
                    picked_by(dirs[i].glob.deep_view(), scans[i].files.deep_view()),
                    scans[i].files@.len(),
                ),
            n,
        ),
    decreases n,
{
    let part = |i: int|
        dir_entries(
            source,
            root,
            dirs[i],
            scans[i].files.deep_view(),
            picked_by(dirs[i].glob.deep_view(), scans[i].files.deep_view()),
            scans[i].files@.len(),
        );
    if n == 0 {
        lists::lemma_chains_none(part);
    } else {
        let k = (n - 1) as nat;
        lemma_dirs_expanded(source, root, dirs, scans, k);
        let before = dirs_expanded(source, root, dirs, scans, k);
        assert(scans[k as int].files.deep_view().len() == scans[k as int].files@.len());
        if dirs_expanded(source, root, dirs, scans, n) is Ok {
            assert(before is Ok);
            lists::lemma_chains_next(before->Ok_0, part, k);
            assert(dirs_expanded(source, root, dirs, scans, n)->Ok_0 == before->Ok_0 + part(
                k as int,
            ));
        }
    }
}

/// A directory that is not there is reported as such, and named with its source; only
/// then is its glob looked at.
pub proof fn law_missing_directories_are_reported(
    source: SourceSpec,
    root: Seq<char>,
    dir: DirMapping,
    scan: DirScan,
)
    ensures
        dir_fault(source, root, dir, scan) is None <==> scan.exists && usable_error(
            dir.glob.deep_view(),
        ) is None,
        !scan.exists ==> dir_fault(source, root, dir, scan)->0 == (error::Fault::ManifestInvalid {
            path: paths::joined_path(root, dir.src@),
            message: "source `"@ + source.name@ + "`: dir mapping src `"@ + dir.src@
                + "` not found inside upstream clone"@,
        }),
        dir.glob is None ==> usable_error(dir.glob.deep_view()) is None,
        dir.glob is Some ==> (usable_error(dir.glob.deep_view()) is None <==> globs::glob_error(
            dir.glob->0@,
        ) is None && globs::glob_set_error(seq![dir.glob->0@]) is None),
{
}

/// Of the overrides for a destination the last one decides, wherever it stands.
pub proof fn law_later_overrides_win(source: SourceSpec, entry: EntryModel, i: int)
    requires
        overrides_valid(source),
        0 <= i < source.overrides@.len(),
        paths::components_of(source.overrides@[i].dest@) == paths::components_of(entry.dest),
        forall|k: int|
            i < k < source.overrides@.len() ==> paths::components_of(
                (#[trigger] source.overrides@[k]).dest@,
            ) != paths::components_of(entry.dest),
    ensures
        source.overrides@[i].action is Some ==> placed(source, entry) is None,
        source.overrides@[i].action is None ==> {
            let e = placed(source, entry);
            &&& e is Some
            &&& e->0.dest == source.overrides@[i].relocate->0@
            &&& e->0.source_name == entry.source_name
            &&& e->0.src_abs == entry.src_abs
            &&& e->0.src_rel == entry.src_rel
            &&& e->0.mode == entry.mode
        },
{
    let overrides = source.overrides@;
    lemma_override_valid(overrides, overrides.len(), i);
    lemma_last_override(overrides, overrides.len(), entry.dest, i);
}

proof fn lemma_last_override(overrides: Seq<MappingOverride>, n: nat, dest: Seq<char>, i: int)
    requires
        0 <= i < n <= overrides.len(),
        paths::components_of(overrides[i].dest@) == paths::components_of(dest),
        forall|k: int|
            i < k < n ==> paths::components_of((#[trigger] overrides[k]).dest@)
                != paths::components_of(dest),
    ensures
        override_for(overrides, n, dest) == match overrides[i].effect() {
            Ok(effect) => Some(effect),
            Err(_) => None,
        },
    decreases n,
{
    if i < n - 1 {
        assert(paths::components_of(overrides[n - 1].dest@) != paths::components_of(dest));
        lemma_last_override(overrides, (n - 1) as nat, dest, i);
    }
}

/// The model of an entry has each field under its own name.
pub proof fn law_entries_say_their_fields(e: ResolvedEntry)
    ensures
        e.deep_view().source_name == e.source_name@,
        e.deep_view().src_abs == e.src_abs@ && e.deep_view().src_rel == e.src_rel@,
        e.deep_view().dest == e.dest@ && e.deep_view().mode == e.mode,
{
}

/// The first directory that cannot be expanded is the one that is reported.
pub proof fn law_the_first_bad_directory_is_reported(
    source: SourceSpec,
    root: Seq<char>,
    dirs: Seq<DirMapping>,
    scans: Seq<DirScan>,
    n: nat,
)
    ensures
        dirs_expanded(source, root, dirs, scans, 0) is Ok,
        dirs_expanded(source, root, dirs, scans, n) is Err ==> dirs_expanded(
            source,
            root,
            dirs,
            scans,
            n + 1,
        ) == dirs_expanded(source, root, dirs, scans, n),
        dirs_expanded(source, root, dirs, scans, n) is Ok ==> (dir_fault(
            source,
            root,
            dirs[n as int],
            scans[n as int],
        ) matches Some(e) ==> dirs_expanded(source, root, dirs, scans, n + 1) == Err::<
            Seq<EntryModel>,
            error::Fault,
        >(e)),
{
}

} // verus!
