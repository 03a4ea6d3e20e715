//! The diff view: changed files and their diffs.
use crate::text;
use crate::text::starts_with;
use crate::textmap::TextMap;
use crate::tui::app::App;
use vstd::prelude::*;

verus! {

/// The state of the diff view.
#[derive(Debug, PartialEq, Eq)]
pub struct DiffState {
    pub files: Vec<DiffFile>,
    pub selected: usize,
    /// Diffs by path.
    pub cache: TextMap<Vec<DiffLine>>,
    /// Whether the file list was ever loaded.
    pub loaded: bool,
    /// Why loading failed.
    pub error: Option<String>,
    /// The pane that keys act on.
    pub focus: DiffFocus,
    /// Whether long lines wrap.
    pub wrap: bool,
    /// Whether lazygit is installed.
    pub lazygit_available: bool,
    /// The trunk branch.
    pub trunk: Option<String>,
    /// The commit that the diffs compare against.
    pub anchor: Option<String>,
    /// The current branch.
    pub branch: Option<String>,
    /// The first characters of the anchor.
    pub anchor_short: Option<String>,
}

/// The panes of the diff view.
#[derive(Debug, Clone, Copy, PartialEq, Eq, Structural)]
pub enum DiffFocus {
    Files,
    Body,
}

/// One changed file.
#[derive(Debug, PartialEq, Eq)]
pub struct DiffFile {
    pub path: String,
    pub status: DiffStatus,
    pub additions: usize,
    pub deletions: usize,
    pub binary: bool,
}

/// What a [`DiffFile`] says.
pub ghost struct FileModel {
    pub path: Seq<char>,
    pub status: DiffStatus,
    pub additions: nat,
    pub deletions: nat,
    pub binary: bool,
}

impl DeepView for DiffFile {
    type V = FileModel;

    open spec fn deep_view(&self) -> FileModel {
        FileModel {
            path: self.path@,
            status: self.status,
            additions: self.additions as nat,
            deletions: self.deletions as nat,
            binary: self.binary,
        }
    }
}

impl Clone for DiffFile {
    fn clone(&self) -> (res: Self)
        ensures
            res == *self,
    {
        DiffFile {
            path: self.path.clone(),
            status: self.status,
            additions: self.additions,
            deletions: self.deletions,
            binary: self.binary,
        }
    }
}

#[derive(Debug, Clone, Copy, PartialEq, Eq, Structural)]
pub enum DiffStatus {
    Modified,
    Added,
    Deleted,
    Renamed,
    Untracked,
    Other,
}

impl DiffStatus {
    /// The letter of the status.
    pub open spec fn letter_char(self) -> char {
        match self {
            DiffStatus::Modified => 'M',
            DiffStatus::Added => 'A',
            DiffStatus::Deleted => 'D',
            DiffStatus::Renamed => 'R',
            DiffStatus::Untracked => 'U',
            DiffStatus::Other => '?',
        }
    }

    /// The letter of the status.
    pub fn letter(self) -> (res: char)
        ensures
            res == self.letter_char(),
    {
        match self {
            DiffStatus::Modified => 'M',
            DiffStatus::Added => 'A',
            DiffStatus::Deleted => 'D',
            DiffStatus::Renamed => 'R',
            DiffStatus::Untracked => 'U',
            DiffStatus::Other => '?',
        }
    }
}

/// Each status has a letter of its own.
pub proof fn law_letters_tell_statuses_apart(a: DiffStatus, b: DiffStatus)
    ensures
        a.letter_char() == b.letter_char() ==> a == b,
{
}

/// One line of a diff, with its line numbers on either side.
#[derive(Debug, PartialEq, Eq)]
pub struct DiffLine {
    pub kind: DiffLineKind,
    pub text: String,
    pub old_lineno: Option<u32>,
    pub new_lineno: Option<u32>,
}

/// What a [`DiffLine`] says.
pub ghost struct LineModel {
    pub kind: DiffLineKind,
    pub text: Seq<char>,
    pub old_lineno: Option<u32>,
    pub new_lineno: Option<u32>,
}

impl DeepView for DiffLine {
    type V = LineModel;

    open spec fn deep_view(&self) -> LineModel {
        LineModel {
            kind: self.kind,
            text: self.text@,
            old_lineno: self.old_lineno,
            new_lineno: self.new_lineno,
        }
    }
}

#[derive(Debug, Clone, Copy, PartialEq, Eq, Structural)]
pub enum DiffLineKind {
    Added,
    Removed,
    Context,
    Hunk,
    Header,
}

/// Whether a line of a diff belongs to a file's header.
pub open spec fn is_header(line: Seq<char>) -> bool {
    ||| "diff --git"@.is_prefix_of(line)
    ||| "index "@.is_prefix_of(line)
    ||| "--- "@.is_prefix_of(line)
    ||| "+++ "@.is_prefix_of(line)
    ||| "Binary files"@.is_prefix_of(line)
    ||| "new file mode"@.is_prefix_of(line)
    ||| "deleted file mode"@.is_prefix_of(line)
}

/// The kind of a line of a diff.
pub open spec fn kind_of(line: Seq<char>) -> DiffLineKind {
    if "@@"@.is_prefix_of(line) {
        DiffLineKind::Hunk
    } else if is_header(line) {
        DiffLineKind::Header
    } else if line.len() > 0 && line[0] == '+' {
        DiffLineKind::Added
    } else if line.len() > 0 && line[0] == '-' {
        DiffLineKind::Removed
    } else {
        DiffLineKind::Context
    }
}

impl DiffLineKind {
    /// The kind of a line of a diff, by how it begins.
    pub fn classify(line: &str) -> (res: Self)
        ensures
            res == kind_of(line@),
    {
        if starts_with(line, "@@") {
            return DiffLineKind::Hunk;
        }
        if starts_with(line, "diff --git") || starts_with(line, "index ") || starts_with(
            line,
            "--- ",
        ) || starts_with(line, "+++ ") || starts_with(line, "Binary files") || starts_with(
            line,
            "new file mode",
        ) || starts_with(line, "deleted file mode") {
            return DiffLineKind::Header;
        }
        let chars = text::to_chars(line);
        if chars.len() > 0 && chars[0] == '+' {
            return DiffLineKind::Added;
        }
        if chars.len() > 0 && chars[0] == '-' {
            return DiffLineKind::Removed;
        }
        DiffLineKind::Context
    }
}

impl DiffState {
    /// The state before anything was loaded.
    pub open spec fn is_empty(&self) -> bool {
        &&& self.files@.len() == 0
        &&& self.selected == 0
        &&& self.cache@ == Map::<Seq<char>, Vec<DiffLine>>::empty()
        &&& !self.loaded
        &&& self.error is None
        &&& self.focus == DiffFocus::Files
        &&& !self.wrap
        &&& !self.lazygit_available
        &&& self.trunk is None && self.anchor is None && self.branch is None && self.anchor_short
            is None
    }

    /// The state before anything was loaded.
    pub fn empty() -> (res: Self)
        ensures
            res.is_empty(),
    {
        DiffState {
            files: Vec::new(),
            selected: 0,
            cache: TextMap::new(),
            loaded: false,
            error: None,
            focus: DiffFocus::Files,
            wrap: false,
            lazygit_available: false,
            trunk: None,
            anchor: None,
            branch: None,
            anchor_short: None,
        }
    }

    /// The selection points at a file, or there is none.
    pub open spec fn selection_valid(&self) -> bool {
        self.selected < self.files@.len() || (self.files@.len() == 0 && self.selected == 0)
    }
}

/// `app` with another state of the diff view.
pub open spec fn with_diff(app: App, diff: DiffState) -> App {
    App { diff, ..app }
}

/// `app` with the diff view marked stale: nothing cached, to be loaded again.
pub open spec fn diff_stale(app: App, post: App) -> bool {
    &&& post == with_diff(app, DiffState { loaded: false, cache: post.diff.cache, ..app.diff })
    &&& post.diff.cache@ == Map::<Seq<char>, Vec<DiffLine>>::empty()
}

impl App {
    /// The diff view.
    pub fn diff(&self) -> (res: &DiffState)
        ensures
            *res == self.diff,
    {
        &self.diff
    }

    /// Takes in a file list. The selection stays within it; cached diffs stay.
    pub fn diff_set_files(&mut self, files: Vec<DiffFile>)
        ensures
            *final(self) == with_diff(
                *old(self),
                DiffState {
                    files,
                    loaded: true,
                    error: None,
                    selected: if old(self).diff.selected < files@.len() {
                        old(self).diff.selected
                    } else if files@.len() > 0 {
                        (files@.len() - 1) as usize
                    } else {
                        0
                    },
                    ..old(self).diff
                },
            ),
            final(self).diff.selection_valid(),
    {
        self.diff.files = files;
        self.diff.loaded = true;
        if self.diff.selected >= self.diff.files.len() {
            self.diff.selected = if self.diff.files.len() > 0 {
                self.diff.files.len() - 1
            } else {
                0
            };
        }
        self.diff.error = None;
    }

    /// Records why loading failed.
    pub fn diff_set_error(&mut self, msg: String)
        ensures
            *final(self) == with_diff(
                *old(self),
                DiffState { error: Some(msg), loaded: true, ..old(self).diff },
            ),
    {
        self.diff.error = Some(msg);
        self.diff.loaded = true;
    }

    /// Records what the diffs compare against.
    pub fn diff_set_anchor(
        &mut self,
        trunk: Option<String>,
        anchor: Option<String>,
        branch: Option<String>,
    )
        ensures
            *final(self) == with_diff(
                *old(self),
                DiffState {
                    trunk,
                    anchor,
                    branch,
                    anchor_short: final(self).diff.anchor_short,
                    ..old(self).diff
                },
            ),
            final(self).diff.anchor_short.deep_view() == match anchor {
                Some(sha) => Some(text::first_chars(sha@, 7)),
                None => None,
            },
    {
        let short = match &anchor {
            Some(sha) => Some(text::take_chars(sha.as_str(), 7)),
            None => None,
        };
        self.diff.anchor_short = short;
        self.diff.trunk = trunk;
        self.diff.anchor = anchor;
        self.diff.branch = branch;
    }

    /// Selects the next file; the last one stays selected.
    pub fn diff_select_next(&mut self)
        requires
            old(self).diff.selection_valid(),
        ensures
            final(self).diff.selection_valid(),
            *final(self) == with_diff(
                *old(self),
                DiffState {
                    selected: if old(self).diff.selected + 1 < old(self).diff.files@.len() {
                        (old(self).diff.selected + 1) as usize
                    } else {
                        old(self).diff.selected
                    },
                    ..old(self).diff
                },
            ),
    {
        if self.diff.files.len() > 0 && self.diff.selected < self.diff.files.len() - 1 {
            self.diff.selected = self.diff.selected + 1;
        }
    }

    /// Selects the previous file; the first one stays selected.
    pub fn diff_select_prev(&mut self)
        requires
            old(self).diff.selection_valid(),
        ensures
            final(self).diff.selection_valid(),
            *final(self) == with_diff(
                *old(self),
                DiffState {
                    selected: if old(self).diff.selected > 0 {
                        (old(self).diff.selected - 1) as usize
                    } else {
                        0
                    },
                    ..old(self).diff
                },
            ),
    {
        if self.diff.selected > 0 {
            self.diff.selected = self.diff.selected - 1;
        }
    }

    /// The selected file.
    pub fn diff_selected_file(&self) -> (res: Option<&DiffFile>)
        ensures
            match res {
                Some(f) => self.diff.selected < self.diff.files@.len() && *f
                    == self.diff.files@[self.diff.selected as int],
                None => self.diff.selected >= self.diff.files@.len(),
            },
    {
        if self.diff.selected < self.diff.files.len() {
            Some(&self.diff.files[self.diff.selected])
        } else {
            None
        }
    }

    /// The cached diff of a path.
    pub fn diff_cache_for(&self, path: &str) -> (res: Option<&Vec<DiffLine>>)
        ensures
            res is Some == self.diff.cache@.contains_key(path@),
            res is Some ==> *res->0 == self.diff.cache@[path@],
    {
        self.diff.cache.get(path)
    }

    /// Caches the diff of a path.
    pub fn diff_set_cache(&mut self, path: String, lines: Vec<DiffLine>)
        ensures
            *final(self) == with_diff(
                *old(self),
                DiffState { cache: final(self).diff.cache, ..old(self).diff },
            ),
            final(self).diff.cache@ == old(self).diff.cache@.insert(path@, lines),
    {
        self.diff.cache.insert(path, lines);
    }

    /// Marks the view stale: the cache is emptied, the list is to be loaded again.
    pub fn diff_mark_stale(&mut self)
        ensures
            diff_stale(*old(self), *final(self)),
    {
        self.diff.loaded = false;
        self.diff.cache = TextMap::new();
    }

    /// Takes the request for lazygit.
    pub fn take_pending_lazygit(&mut self) -> (res: bool)
        ensures
            res == old(self).pending_lazygit,
            *final(self) == (App { pending_lazygit: false, ..*old(self) }),
    {
        let res = self.pending_lazygit;
        self.pending_lazygit = false;
        res
    }
}

/// The letters are those that git uses, and `U` for a file that it does not follow.
pub proof fn law_statuses_have_their_letters(status: DiffStatus)
    ensures
        status == DiffStatus::Modified ==> status.letter_char() == 'M',
        status == DiffStatus::Added ==> status.letter_char() == 'A',
        status == DiffStatus::Deleted ==> status.letter_char() == 'D',
        status == DiffStatus::Renamed ==> status.letter_char() == 'R',
        status == DiffStatus::Untracked ==> status.letter_char() == 'U',
        status == DiffStatus::Other ==> status.letter_char() == '?',
{
}

/// The kind of a line goes by how it begins: `@@` begins a hunk, and the lines of a
/// file's header are known by their words. Of the others, `+` and `-` mark what was
/// added and removed.
pub proof fn law_lines_are_told_apart_by_how_they_begin(line: Seq<char>, rest: Seq<char>)
    ensures
        kind_of("@@"@ + rest) == DiffLineKind::Hunk,
        kind_of("diff --git"@ + rest) == DiffLineKind::Header,
        kind_of("index "@ + rest) == DiffLineKind::Header,
        kind_of("--- "@ + rest) == DiffLineKind::Header,
        kind_of("+++ "@ + rest) == DiffLineKind::Header,
        kind_of("Binary files"@ + rest) == DiffLineKind::Header,
        kind_of("new file mode"@ + rest) == DiffLineKind::Header,
        kind_of("deleted file mode"@ + rest) == DiffLineKind::Header,
        kind_of(seq![' '] + rest) == DiffLineKind::Context,
        kind_of(Seq::empty()) == DiffLineKind::Context,
        rest.len() > 0 && rest[0] != '+' ==> kind_of(seq!['+'] + rest) == DiffLineKind::Added,
        rest.len() > 0 && rest[0] != '-' ==> kind_of(seq!['-'] + rest) == DiffLineKind::Removed,
        kind_of(line) == DiffLineKind::Added ==> line.len() > 0 && line[0] == '+',
        kind_of(line) == DiffLineKind::Removed ==> line.len() > 0 && line[0] == '-',
        kind_of(line) == DiffLineKind::Hunk ==> "@@"@.is_prefix_of(line),
{
    reveal_strlit("@@");
    reveal_strlit("diff --git");
    reveal_strlit("index ");
    reveal_strlit("--- ");
    reveal_strlit("+++ ");
    reveal_strlit("Binary files");
    reveal_strlit("new file mode");
    reveal_strlit("deleted file mode");
    lemma_begins("@@"@, rest);
    lemma_begins("diff --git"@, rest);
    lemma_begins("index "@, rest);
    lemma_begins("--- "@, rest);
    lemma_begins("+++ "@, rest);
    lemma_begins("Binary files"@, rest);
    lemma_begins("new file mode"@, rest);
    lemma_begins("deleted file mode"@, rest);
    lemma_first_of("diff --git"@ + rest);
    lemma_first_of("index "@ + rest);
    lemma_first_of("--- "@ + rest);
    lemma_first_of("+++ "@ + rest);
    lemma_first_of("Binary files"@ + rest);
    lemma_first_of("new file mode"@ + rest);
    lemma_first_of("deleted file mode"@ + rest);
    lemma_first_of(seq![' '] + rest);
    lemma_first_of(seq!['+'] + rest);
    lemma_first_of(seq!['-'] + rest);
}

proof fn lemma_begins(head: Seq<char>, rest: Seq<char>)
    ensures
        head.is_prefix_of(head + rest),
{
    assert((head + rest).take(head.len() as int) =~= head);
}

proof fn lemma_prefix_chars(head: Seq<char>, line: Seq<char>)
    requires
        head.len() >= 2,
    ensures
        head.is_prefix_of(line) ==> line.len() >= head.len() && line[0] == head[0] && line[1]
            == head[1],
{
    if head.is_prefix_of(line) {
        assert(line.subrange(0, head.len() as int)[0] == line[0]);
        assert(line.subrange(0, head.len() as int)[1] == line[1]);
    }
}

proof fn lemma_first_of(line: Seq<char>)
    ensures
        "@@"@.is_prefix_of(line) ==> line.len() > 0 && line[0] == '@',
        "diff --git"@.is_prefix_of(line) || "deleted file mode"@.is_prefix_of(line) ==> line.len()
            > 0 && line[0] == 'd',
        "index "@.is_prefix_of(line) ==> line.len() > 0 && line[0] == 'i',
        "--- "@.is_prefix_of(line) ==> line.len() > 1 && line[0] == '-' && line[1] == '-',
        "+++ "@.is_prefix_of(line) ==> line.len() > 1 && line[0] == '+' && line[1] == '+',
        "Binary files"@.is_prefix_of(line) ==> line.len() > 0 && line[0] == 'B',
        "new file mode"@.is_prefix_of(line) ==> line.len() > 0 && line[0] == 'n',
{
    reveal_strlit("@@");
    reveal_strlit("diff --git");
    reveal_strlit("index ");
    reveal_strlit("--- ");
    reveal_strlit("+++ ");
    reveal_strlit("Binary files");
    reveal_strlit("new file mode");
    reveal_strlit("deleted file mode");
    lemma_prefix_chars("@@"@, line);
    lemma_prefix_chars("diff --git"@, line);
    lemma_prefix_chars("deleted file mode"@, line);
    lemma_prefix_chars("index "@, line);
    lemma_prefix_chars("--- "@, line);
    lemma_prefix_chars("+++ "@, line);
    lemma_prefix_chars("Binary files"@, line);
    lemma_prefix_chars("new file mode"@, line);
}

/// Marking the view stale empties the cache and has the list loaded again; the files,
/// the selection and the focus stay.
pub proof fn law_a_stale_view_is_loaded_again(app: App, post: App, path: Seq<char>)
    requires
        diff_stale(app, post),
    ensures
        !post.diff.loaded,
        !post.diff.cache@.contains_key(path),
        post.diff.files == app.diff.files && post.diff.selected == app.diff.selected,
        post.diff.focus == app.diff.focus && post.diff.wrap == app.diff.wrap,
        post.diff.anchor == app.diff.anchor && post.diff.trunk == app.diff.trunk,
        post == (App { diff: post.diff, ..app }),
{
}

/// The model of a file and of a line has each field under its own name.
pub proof fn law_files_and_lines_say_their_fields(f: DiffFile, l: DiffLine)
    ensures
        f.deep_view().path == f.path@ && f.deep_view().status == f.status,
        f.deep_view().additions == f.additions && f.deep_view().deletions == f.deletions,
        f.deep_view().binary == f.binary,
        l.deep_view().kind == l.kind && l.deep_view().text == l.text@,
        l.deep_view().old_lineno == l.old_lineno && l.deep_view().new_lineno == l.new_lineno,
{
}

/// Before anything was loaded there is nothing to show, and the list has the focus.
pub proof fn law_an_empty_view_has_nothing(d: DiffState, path: Seq<char>)
    requires
        d.is_empty(),
    ensures
        d.files@.len() == 0 && d.selected == 0 && !d.cache@.contains_key(path),
        !d.loaded && d.error is None && d.focus == DiffFocus::Files,
        !d.wrap && !d.lazygit_available,
        d.trunk is None && d.anchor is None && d.branch is None && d.anchor_short is None,
{
}

} // verus!
