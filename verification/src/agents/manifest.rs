//! Upstream manifests: which files of a repository go where in the project.
use crate::agents::error;
use crate::agents::error::AgentsError;
use crate::globs;
use crate::globs::new_glob;
use crate::paths;
use crate::text::{concat, concat3};
use vstd::prelude::*;

verus! {

/// A manifest as it is written.
#[derive(Debug, PartialEq, Eq)]
pub struct UpstreamManifest {
    pub files: Vec<FileMapping>,
    pub dirs: Vec<DirMapping>,
}

impl Default for UpstreamManifest {
    fn default() -> (res: Self)
        ensures
            res.files@.len() == 0,
            res.dirs@.len() == 0,
    {
        UpstreamManifest { files: Vec::new(), dirs: Vec::new() }
    }
}

/// One file and where it goes.
#[derive(Debug, PartialEq, Eq)]
pub struct FileMapping {
    pub src: String,
    pub dest: String,
    pub mode: FileMode,
}

/// A directory whose files go below another, those that a glob picks.
#[derive(Debug, PartialEq, Eq)]
pub struct DirMapping {
    pub src: String,
    pub dest: String,
    /// Absent: every file.
    pub glob: Option<String>,
    pub mode: FileMode,
}

/// How a mapping is written.
#[derive(Debug, Clone, Copy, PartialEq, Eq, Structural)]
pub enum FileMode {
    /// Always from upstream.
    Replace,
    /// Only where nothing stands; the project owns the file from there on.
    Once,
}

impl Default for FileMode {
    fn default() -> (res: Self)
        ensures
            res == FileMode::Replace,
    {
        FileMode::Replace
    }
}

/// Whether one of the first `n` components leads upwards.
pub open spec fn climbs(components: Seq<Seq<char>>, n: int) -> bool {
    exists|i: int| 0 <= i < n && #[trigger] components[i] == ".."@
}

/// Why a path of a manifest is refused: it is absolute, it leads upwards, or it is
/// empty.
pub open spec fn rel_error(value: Seq<char>, field: Seq<char>) -> Option<Seq<char>> {
    let components = paths::components_of(value);
    if paths::absolute(value) {
        Some("`"@ + field + "` must be a relative path, got `"@ + value + "`"@)
    } else if climbs(components, components.len() as int) {
        Some("`"@ + field + "` may not contain `..` segments (got `"@ + value + "`)"@)
    } else if value.len() == 0 {
        Some("`"@ + field + "` must not be empty"@)
    } else {
        None
    }
}

/// Checks a path of a manifest.
pub fn validate_rel(value: &str, field: &str) -> (res: Result<(), String>)
    ensures
        match res {
            Ok(_) => rel_error(value@, field@) is None,
            Err(e) => rel_error(value@, field@) == Some(e@),
        },
{
    if paths::is_absolute(value) {
        let head = concat3("`", field, "` must be a relative path, got `");
        return Err(concat3(head.as_str(), value, "`"));
    }
    let components = paths::components(value);
    let ghost all = components.deep_view();
    let mut i: usize = 0;
    while i < components.len()
        invariant
            i <= components@.len(),
            all == components.deep_view(),
            all == paths::components_of(value@),
            !paths::absolute(value@),
            !climbs(all, i as int),
        decreases components@.len() - i,
    {
        assert(all[i as int] == components@[i as int]@);
        if *components[i].as_str() == *".." {
            let head = concat3("`", field, "` may not contain `..` segments (got `");
            return Err(concat3(head.as_str(), value, "`)"));
        }
        i += 1;
    }
    if value.is_empty() {
        return Err(concat3("`", field, "` must not be empty"));
    }
    Ok(())
}

/// Why a source and its destination are refused.
pub open spec fn pair_error(src: Seq<char>, dest: Seq<char>) -> Option<Seq<char>> {
    match rel_error(src, "src"@) {
        Some(e) => Some(e),
        None => rel_error(dest, "dest"@),
    }
}

fn validate_pair(src: &str, dest: &str) -> (res: Result<(), String>)
    ensures
        match res {
            Ok(_) => pair_error(src@, dest@) is None,
            Err(e) => pair_error(src@, dest@) == Some(e@),
        },
{
    match validate_rel(src, "src") {
        Err(e) => Err(e),
        Ok(_) => validate_rel(dest, "dest"),
    }
}

/// Why the first refused one of the first `n` file mappings is refused.
pub open spec fn files_error(files: Seq<FileMapping>, n: nat) -> Option<Seq<char>>
    decreases n,
{
    if n == 0 {
        None
    } else {
        match files_error(files, (n - 1) as nat) {
            Some(e) => Some(e),
            None => pair_error(files[n - 1].src@, files[n - 1].dest@),
        }
    }
}

/// Why a glob is refused.
pub open spec fn pattern_error(glob: Option<Seq<char>>) -> Option<Seq<char>> {
    match glob {
        Some(g) => match globs::glob_error(g) {
            Some(e) => Some("invalid glob `"@ + g + "`: "@ + e),
            None => None,
        },
        None => None,
    }
}

/// Checks the glob of a directory mapping.
pub fn validate_glob(glob: &Option<String>) -> (res: Result<(), String>)
    ensures
        match res {
            Ok(_) => pattern_error(glob.deep_view()) is None,
            Err(e) => pattern_error(glob.deep_view()) == Some(e@),
        },
{
    match glob {
        Some(g) => match new_glob(g.as_str()) {
            Ok(_) => Ok(()),
            Err(e) => Err(glob_complaint(g.as_str(), e.as_str())),
        },
        None => Ok(()),
    }
}

/// What a manifest with an invalid glob is answered.
pub fn glob_complaint(glob: &str, error: &str) -> (res: String)
    ensures
        res@ == "invalid glob `"@ + glob@ + "`: "@ + error@,
{
    let head = concat3("invalid glob `", glob, "`: ");
    concat(head.as_str(), error)
}

/// Why the first refused one of the first `n` directory mappings is refused.
pub open spec fn dirs_error(dirs: Seq<DirMapping>, n: nat) -> Option<Seq<char>>
    decreases n,
{
    if n == 0 {
        None
    } else {
        let d = dirs[n - 1];
        match dirs_error(dirs, (n - 1) as nat) {
            Some(e) => Some(e),
            None => match pair_error(d.src@, d.dest@) {
                Some(e) => Some(e),
                None => pattern_error(d.glob.deep_view()),
            },
        }
    }
}

impl UpstreamManifest {
    /// Why the manifest is refused.
    pub open spec fn error(&self) -> Option<Seq<char>> {
        match files_error(self.files@, self.files@.len()) {
            Some(e) => Some(e),
            None => dirs_error(self.dirs@, self.dirs@.len()),
        }
    }

    /// Checks that no mapping reaches out of the repository or the project, and
    /// that every glob is one.
    pub fn validate(&self, path: &str) -> (res: Result<(), AgentsError>)
        ensures
            match res {
                Ok(_) => self.error() is None,
                Err(e) => self.error() is Some && e@ == (error::Fault::ManifestInvalid {
                    path: path@,
                    message: self.error()->0,
                }),
            },
    {
        match self.check() {
            Ok(_) => Ok(()),
            Err(message) => Err(
                AgentsError::ManifestInvalid { path: path.to_owned(), message },
            ),
        }
    }

    fn check(&self) -> (res: Result<(), String>)
        ensures
            match res {
                Ok(_) => self.error() is None,
                Err(e) => self.error() == Some(e@),
            },
    {
        let mut i: usize = 0;
        while i < self.files.len()
            invariant
                i <= self.files@.len(),
                files_error(self.files@, i as nat) is None,
            decreases self.files@.len() - i,
        {
            match validate_pair(self.files[i].src.as_str(), self.files[i].dest.as_str()) {
                Ok(_) => {},
                Err(e) => {
                    proof {
                        lemma_files_error_stays(self.files@, (i + 1) as nat, self.files@.len());
                    }
                    return Err(e);
                },
            }
            i += 1;
        }
        let mut j: usize = 0;
        while j < self.dirs.len()
            invariant
                j <= self.dirs@.len(),
                files_error(self.files@, self.files@.len()) is None,
                dirs_error(self.dirs@, j as nat) is None,
            decreases self.dirs@.len() - j,
        {
            let d = &self.dirs[j];
            let found = match validate_pair(d.src.as_str(), d.dest.as_str()) {
                Ok(_) => validate_glob(&d.glob),
                Err(e) => Err(e),
            };
            match found {
                Ok(_) => {},
                Err(e) => {
                    proof {
                        lemma_dirs_error_stays(self.dirs@, (j + 1) as nat, self.dirs@.len());
                    }
                    return Err(e);
                },
            }
            j += 1;
        }
        Ok(())
    }
}

proof fn lemma_files_error_stays(files: Seq<FileMapping>, n: nat, m: nat)
    requires
        n <= m,
        files_error(files, n) is Some,
    ensures
        files_error(files, m) == files_error(files, n),
    decreases m,
{
    if n < m {
        lemma_files_error_stays(files, n, (m - 1) as nat);
    }
}

proof fn lemma_dirs_error_stays(dirs: Seq<DirMapping>, n: nat, m: nat)
    requires
        n <= m,
        dirs_error(dirs, n) is Some,
    ensures
        dirs_error(dirs, m) == dirs_error(dirs, n),
    decreases m,
{
    if n < m {
        lemma_dirs_error_stays(dirs, n, (m - 1) as nat);
    }
}

/// Takes what the text of the manifest at `path` parsed to, and checks it.
pub fn parse_manifest(path: &str, parsed: Result<UpstreamManifest, String>) -> (res: Result<
    UpstreamManifest,
    AgentsError,
>)
    ensures
        match (parsed, res) {
            (Ok(m), Ok(r)) => r == m && m.error() is None,
            (Ok(m), Err(e)) => m.error() is Some && e@ == (error::Fault::ManifestInvalid {
                path: path@,
                message: m.error()->0,
            }),
            (Err(message), Err(e)) => e@ == (error::Fault::ManifestParse {
                path: path@,
                message: message@,
            }),
            (Err(_), Ok(_)) => false,
        },
{
    match parsed {
        Ok(m) => match m.validate(path) {
            Ok(_) => Ok(m),
            Err(e) => Err(e),
        },
        Err(message) => Err(AgentsError::ManifestParse { path: path.to_owned(), message }),
    }
}

/// Whether a path stays inside the directory that it is taken from: it is relative,
/// not empty, and no component of it leads upwards.
pub open spec fn stays_inside(path: Seq<char>) -> bool {
    let components = paths::components_of(path);
    &&& !paths::absolute(path)
    &&& path.len() > 0
    &&& !climbs(components, components.len() as int)
}

/// No path of an accepted manifest leaves its place: the destinations of files and
/// directories stay inside the project, and their sources inside the clone.
pub proof fn law_accepted_paths_stay_inside(m: UpstreamManifest, i: int)
    requires
        m.error() is None,
    ensures
        0 <= i < m.files@.len() ==> stays_inside(m.files@[i].dest@) && stays_inside(
            m.files@[i].src@,
        ),
        0 <= i < m.dirs@.len() ==> stays_inside(m.dirs@[i].dest@) && stays_inside(
            m.dirs@[i].src@,
        ),
{
    if 0 <= i < m.files@.len() {
        lemma_files_accepted(m.files@, m.files@.len(), i);
    }
    if 0 <= i < m.dirs@.len() {
        lemma_dirs_accepted(m.dirs@, m.dirs@.len(), i);
    }
}

proof fn lemma_files_accepted(files: Seq<FileMapping>, n: nat, i: int)
    requires
        files_error(files, n) is None,
        0 <= i < n,
    ensures
        pair_error(files[i].src@, files[i].dest@) is None,
    decreases n,
{
    if i < n - 1 {
        lemma_files_accepted(files, (n - 1) as nat, i);
    }
}

proof fn lemma_dirs_accepted(dirs: Seq<DirMapping>, n: nat, i: int)
    requires
        dirs_error(dirs, n) is None,
        0 <= i < n,
    ensures
        pair_error(dirs[i].src@, dirs[i].dest@) is None,
    decreases n,
{
    if i < n - 1 {
        lemma_dirs_accepted(dirs, (n - 1) as nat, i);
    }
}

/// Whether a path is one that a manifest may name: it does not begin at the root, is
/// not empty, and has no component `..`.
pub open spec fn may_be_named(path: Seq<char>) -> bool {
    &&& path.len() > 0
    &&& path[0] != '/'
    &&& !paths::components_of(path).contains(".."@)
}

proof fn lemma_may_be_named(path: Seq<char>, field: Seq<char>)
    ensures
        rel_error(path, field) is None <==> may_be_named(path),
{
    let components = paths::components_of(path);
    if climbs(components, components.len() as int) {
        let i = choose|i: int| 0 <= i < components.len() && #[trigger] components[i] == ".."@;
        assert(components.contains(".."@));
    }
    if components.contains(".."@) {
        let i = components.index_of(".."@);
        assert(components[i] == ".."@);
    }
}

/// A manifest is accepted exactly where every path of it may be named and every glob
/// is one.
pub proof fn law_accepted_manifests(m: UpstreamManifest)
    ensures
        m.error() is None <==> {
            &&& forall|i: int|
                0 <= i < m.files@.len() ==> may_be_named((#[trigger] m.files@[i]).src@)
                    && may_be_named(m.files@[i].dest@)
            &&& forall|i: int|
                0 <= i < m.dirs@.len() ==> may_be_named((#[trigger] m.dirs@[i]).src@)
                    && may_be_named(m.dirs@[i].dest@) && (m.dirs@[i].glob is Some
                    ==> globs::glob_error(m.dirs@[i].glob->0@) is None)
        },
{
    lemma_files_error(m.files@, m.files@.len());
    lemma_dirs_error(m.dirs@, m.dirs@.len());
}

proof fn lemma_files_error(files: Seq<FileMapping>, n: nat)
    requires
        n <= files.len(),
    ensures
        files_error(files, n) is None <==> forall|i: int|
            0 <= i < n ==> may_be_named((#[trigger] files[i]).src@) && may_be_named(files[i].dest@),
    decreases n,
{
    if n > 0 {
        lemma_files_error(files, (n - 1) as nat);
        lemma_may_be_named(files[n - 1].src@, "src"@);
        lemma_may_be_named(files[n - 1].dest@, "dest"@);
    }
}

proof fn lemma_dirs_error(dirs: Seq<DirMapping>, n: nat)
    requires
        n <= dirs.len(),
    ensures
        dirs_error(dirs, n) is None <==> forall|i: int|
            0 <= i < n ==> may_be_named((#[trigger] dirs[i]).src@) && may_be_named(dirs[i].dest@)
                && (dirs[i].glob is Some ==> globs::glob_error(dirs[i].glob->0@) is None),
    decreases n,
{
    if n > 0 {
        lemma_dirs_error(dirs, (n - 1) as nat);
        lemma_may_be_named(dirs[n - 1].src@, "src"@);
        lemma_may_be_named(dirs[n - 1].dest@, "dest"@);
    }
}

/// A refused path is named with its field and the reason: it is absolute, it leads
/// upwards, or it is empty. The source is looked at before the destination.
pub proof fn law_refused_paths_are_named(
    value: Seq<char>,
    field: Seq<char>,
    src: Seq<char>,
    dest: Seq<char>,
    glob: Seq<char>,
)
    ensures
        ({
            let error = rel_error(value, field);
            let rooted = value.len() > 0 && value[0] == '/';
            let upwards = exists|i: int|
                0 <= i < paths::components_of(value).len() && #[trigger] paths::components_of(
                    value,
                )[i] == ".."@;
            &&& rooted ==> error == Some(
                "`"@ + field + "` must be a relative path, got `"@ + value + "`"@,
            )
            &&& !rooted && upwards ==> error == Some(
                "`"@ + field + "` may not contain `..` segments (got `"@ + value + "`)"@,
            )
            &&& !rooted && !upwards && value.len() == 0 ==> error == Some(
                "`"@ + field + "` must not be empty"@,
            )
            &&& !rooted && !upwards && value.len() > 0 ==> error is None
        }),
        rel_error(src, "src"@) is Some ==> pair_error(src, dest) == rel_error(src, "src"@),
        rel_error(src, "src"@) is None ==> pair_error(src, dest) == rel_error(dest, "dest"@),
        globs::glob_error(glob) is Some ==> pattern_error(Some(glob)) == Some(
            "invalid glob `"@ + glob + "`: "@ + globs::glob_error(glob)->0,
        ),
        globs::glob_error(glob) is None ==> pattern_error(Some(glob)) is None,
        pattern_error(None) is None,
{
}

} // verus!
