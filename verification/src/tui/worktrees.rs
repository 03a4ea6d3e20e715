//! The worktree switcher.
use crate::paths;
use crate::text;
use crate::tui::app::{App, Mode};
use crate::worktree;
use crate::worktree::{derive_slug, WorktreeListEntry};
use vstd::prelude::*;

verus! {

/// One worktree of the project.
#[derive(Debug, PartialEq, Eq)]
pub struct WorktreeRow {
    pub path: String,
    pub branch: Option<String>,
    pub slug: String,
    /// Whether the dashboard is bound to it.
    pub is_current: bool,
}

/// Whether `row` shows a worktree whose directory is `canonical`, where the
/// dashboard is bound to `current`.
pub open spec fn row_of(
    row: WorktreeRow,
    entry: WorktreeListEntry,
    canonical: Seq<char>,
    current: Seq<char>,
) -> bool {
    &&& row.path@ == entry.path@
    &&& row.branch.deep_view() == entry.branch.deep_view()
    &&& row.slug@ == worktree::entry_slug(entry)
    &&& row.is_current == (paths::components_of(canonical) == paths::components_of(current))
}

/// The rows of the switcher: the worktrees as git lists them, with the resolved
/// directory of each.
pub fn build_worktree_rows(
    entries: &Vec<WorktreeListEntry>,
    canonical: &Vec<String>,
    current: &str,
) -> (res: Vec<WorktreeRow>)
    requires
        canonical@.len() == entries@.len(),
    ensures
        res@.len() == entries@.len(),
        forall|i: int|
            0 <= i < entries@.len() ==> row_of(
                #[trigger] res@[i],
                entries@[i],
                canonical@[i]@,
                current@,
            ),
{
    let mut rows: Vec<WorktreeRow> = Vec::new();
    let mut i: usize = 0;
    while i < entries.len()
        invariant
            i <= entries@.len(),
            canonical@.len() == entries@.len(),
            rows@.len() == i,
            forall|k: int|
                0 <= k < i ==> row_of(#[trigger] rows@[k], entries@[k], canonical@[k]@, current@),
        decreases entries@.len() - i,
    {
        let entry = &entries[i];
        let branch = match &entry.branch {
            Some(b) => Some(b.clone()),
            None => None,
        };
        rows.push(
            WorktreeRow {
                path: entry.path.clone(),
                branch,
                slug: derive_slug(entry),
                is_current: paths::same_path(canonical[i].as_str(), current),
            },
        );
        i += 1;
    }
    rows
}

/// The form for a new worktree.
#[derive(Debug, PartialEq, Eq)]
pub struct NewWorktreeForm {
    /// Where the worktree is created.
    pub path_input: String,
    /// The branch to attach.
    pub branch_input: String,
    pub focus: NewFormField,
    /// Why the last attempt failed.
    pub error: Option<String>,
}

#[derive(Debug, Clone, Copy, PartialEq, Eq, Structural)]
pub enum NewFormField {
    Path,
    Branch,
}

/// What a [`NewWorktreeForm`] says.
pub ghost struct FormModel {
    pub path_input: Seq<char>,
    pub branch_input: Seq<char>,
    pub focus: NewFormField,
    pub error: Option<Seq<char>>,
}

impl View for NewWorktreeForm {
    type V = FormModel;

    open spec fn view(&self) -> FormModel {
        FormModel {
            path_input: self.path_input@,
            branch_input: self.branch_input@,
            focus: self.focus,
            error: self.error.deep_view(),
        }
    }
}

impl FormModel {
    /// The form with `c` behind the focused field; its error is gone.
    pub open spec fn typed(self, c: char) -> FormModel {
        match self.focus {
            NewFormField::Path => FormModel {
                path_input: self.path_input.push(c),
                error: None,
                ..self
            },
            NewFormField::Branch => FormModel {
                branch_input: self.branch_input.push(c),
                error: None,
                ..self
            },
        }
    }

    /// The form without the last character of the focused field; its error is gone.
    pub open spec fn erased(self) -> FormModel {
        match self.focus {
            NewFormField::Path => FormModel {
                path_input: text::without_last(self.path_input),
                error: None,
                ..self
            },
            NewFormField::Branch => FormModel {
                branch_input: text::without_last(self.branch_input),
                error: None,
                ..self
            },
        }
    }

    /// The form with the other field focused.
    pub open spec fn refocused(self) -> FormModel {
        FormModel {
            focus: match self.focus {
                NewFormField::Path => NewFormField::Branch,
                NewFormField::Branch => NewFormField::Path,
            },
            ..self
        }
    }
}

/// Focusing the other field twice changes nothing, and erasing undoes typing in a
/// form without an error.
pub proof fn law_form_edits_undo(form: FormModel, c: char)
    ensures
        form.refocused().refocused() == form,
        form.error is None ==> form.typed(c).erased() == form,
{
    assert(form.path_input.push(c).drop_last() =~= form.path_input);
    assert(form.branch_input.push(c).drop_last() =~= form.branch_input);
}

/// The state of the switcher: the worktrees, then a row for a new one.
#[derive(Debug, PartialEq, Eq)]
pub struct WorktreeSwitcher {
    pub entries: Vec<WorktreeRow>,
    pub selected: usize,
    pub creating: Option<NewWorktreeForm>,
}

impl WorktreeSwitcher {
    /// The selection points at a worktree or at the row for a new one.
    pub open spec fn selection_valid(&self) -> bool {
        self.selected <= self.entries@.len()
    }

    /// The place of the row for a new worktree, which is the last.
    pub fn new_row_index(&self) -> (res: usize)
        ensures
            res == self.entries@.len(),
    {
        self.entries.len()
    }

    /// The number of rows with the one for a new worktree.
    pub fn total_rows(&self) -> (res: usize)
        requires
            self.entries@.len() < usize::MAX,
        ensures
            res == self.entries@.len() + 1,
    {
        self.entries.len() + 1
    }
}

/// The current worktree stands first at `i`.
pub open spec fn current_at(entries: Seq<WorktreeRow>, i: int) -> bool {
    &&& 0 <= i < entries.len()
    &&& entries[i].is_current
    &&& forall|k: int| 0 <= k < i ==> !(#[trigger] entries[k]).is_current
}

/// The directory that a new worktree's path begins with.
pub open spec fn new_worktree_prefix(project_root: Seq<char>) -> Seq<char> {
    let parent = match paths::parent_of(project_root) {
        Some(p) => p,
        None => project_root,
    };
    paths::joined_path(parent, Seq::empty())
}

/// An open switcher selects a row that it has.
pub open spec fn switcher_valid(app: App) -> bool {
    match app.switcher {
        Some(s) => s.selection_valid(),
        None => true,
    }
}

/// `app` with the switcher closed.
pub open spec fn switcher_closed(app: App) -> App {
    App { switcher: None, mode: Mode::Normal, ..app }
}

/// `app` with row `selected` of the switcher selected.
pub open spec fn switcher_moved(app: App, selected: usize) -> App {
    App { switcher: Some(WorktreeSwitcher { selected, ..app.switcher->0 }), ..app }
}

/// `post` is `app` with `form` open in the switcher.
pub open spec fn form_is(app: App, post: App, form: FormModel) -> bool {
    &&& post == (App { switcher: post.switcher, ..app })
    &&& app.switcher is Some && post.switcher is Some
    &&& post.switcher->0 == (WorktreeSwitcher {
        creating: post.switcher->0.creating,
        ..app.switcher->0
    })
    &&& post.switcher->0.creating matches Some(f) && f@ == form
}

/// The open form of the switcher.
pub open spec fn open_form(app: App) -> Option<NewWorktreeForm> {
    match app.switcher {
        Some(s) => s.creating,
        None => None,
    }
}

impl App {
    /// Opens the switcher over `entries`, with the current worktree selected.
    pub fn open_worktree_switcher(&mut self, entries: Vec<WorktreeRow>)
        ensures
            switcher_valid(*final(self)),
            *final(self) == (App {
                switcher: final(self).switcher,
                mode: Mode::WorktreeSwitcher,
                ..*old(self)
            }),
            final(self).switcher matches Some(s) && s.entries == entries && s.creating is None && (
            current_at(entries@, s.selected as int) || (s.selected == 0 && forall|k: int|
                0 <= k < entries@.len() ==> !(#[trigger] entries@[k]).is_current)),
    {
        let mut selected: usize = 0;
        let mut i: usize = 0;
        while i < entries.len()
            invariant_except_break
                i <= entries@.len(),
                selected == 0,
                forall|k: int| 0 <= k < i ==> !(#[trigger] entries@[k]).is_current,
            ensures
                selected <= entries@.len(),
                current_at(entries@, selected as int) || (selected == 0 && forall|k: int|
                    0 <= k < entries@.len() ==> !(#[trigger] entries@[k]).is_current),
            decreases entries@.len() - i,
        {
            if entries[i].is_current {
                selected = i;
                assert(current_at(entries@, i as int));
                break ;
            }
            i += 1;
        }
        self.switcher = Some(WorktreeSwitcher { entries, selected, creating: None });
        self.mode = Mode::WorktreeSwitcher;
    }

    /// The open switcher.
    pub fn switcher(&self) -> (res: Option<&WorktreeSwitcher>)
        ensures
            res is Some == self.switcher is Some,
            res is Some ==> Some(*res->0) == self.switcher,
    {
        self.switcher.as_ref()
    }

    /// Closes the switcher.
    pub fn close_switcher(&mut self)
        ensures
            *final(self) == switcher_closed(*old(self)),
    {
        self.switcher = None;
        self.mode = Mode::Normal;
    }

    /// Selects the next row of the switcher; the last one stays selected.
    pub fn switcher_select_next(&mut self)
        requires
            switcher_valid(*old(self)),
        ensures
            switcher_valid(*final(self)),
            match old(self).switcher {
                Some(s) => *final(self) == switcher_moved(
                    *old(self),
                    if s.selected < s.entries@.len() {
                        (s.selected + 1) as usize
                    } else {
                        s.selected
                    },
                ),
                None => *final(self) == *old(self),
            },
    {
        if let Some(s) = &mut self.switcher {
            if s.selected < s.entries.len() {
                s.selected = s.selected + 1;
            }
        }
    }

    /// Selects the previous row of the switcher; the first one stays selected.
    pub fn switcher_select_prev(&mut self)
        requires
            switcher_valid(*old(self)),
        ensures
            switcher_valid(*final(self)),
            match old(self).switcher {
                Some(s) => *final(self) == switcher_moved(
                    *old(self),
                    if s.selected > 0 {
                        (s.selected - 1) as usize
                    } else {
                        0
                    },
                ),
                None => *final(self) == *old(self),
            },
    {
        if let Some(s) = &mut self.switcher {
            if s.selected > 0 {
                s.selected = s.selected - 1;
            }
        }
    }

    /// Resolves the switcher: opens the form on the row for a new worktree; else
    /// queues a switch unless the worktree is the current one, and closes the
    /// switcher. Tells whether there was a switcher to act on.
    pub fn switcher_confirm(&mut self) -> (res: bool)
        requires
            switcher_valid(*old(self)),
        ensures
            res == old(self).switcher is Some,
            switcher_valid(*final(self)),
            match old(self).switcher {
                None => *final(self) == *old(self),
                Some(s) => if s.selected == s.entries@.len() {
                    form_is(
                        *old(self),
                        *final(self),
                        FormModel {
                            path_input: new_worktree_prefix(old(self).project_root@),
                            branch_input: Seq::empty(),
                            focus: NewFormField::Branch,
                            error: None,
                        },
                    )
                } else if s.entries@[s.selected as int].is_current {
                    *final(self) == switcher_closed(*old(self))
                } else {
                    &&& *final(self) == (App {
                        pending_switch: final(self).pending_switch,
                        ..switcher_closed(*old(self))
                    })
                    &&& final(self).pending_switch.deep_view() == Some(
                        s.entries@[s.selected as int].path@,
                    )
                },
            },
    {
        let mut target: Option<String> = None;
        match &mut self.switcher {
            None => return false,
            Some(s) => {
                if s.selected == s.new_row_index() {
                    let parent = match paths::parent(self.project_root.as_str()) {
                        Some(p) => p,
                        None => self.project_root.clone(),
                    };
                    proof {
                        reveal_strlit("");
                        assert(""@ =~= Seq::<char>::empty());
                    }
                    let prefix = paths::join_path(parent.as_str(), "");
                    s.creating = Some(
                        NewWorktreeForm {
                            path_input: prefix,
                            branch_input: String::new(),
                            focus: NewFormField::Branch,
                            error: None,
                        },
                    );
                    return true;
                }
                let row = &s.entries[s.selected];
                if !row.is_current {
                    target = Some(row.path.clone());
                }
            },
        }
        if target.is_some() {
            self.pending_switch = target;
        }
        self.close_switcher();
        true
    }

    /// Appends `c` to the focused field of the open form.
    pub fn switcher_form_push_char(&mut self, c: char)
        ensures
            match open_form(*old(self)) {
                Some(f) => form_is(*old(self), *final(self), f@.typed(c)),
                None => *final(self) == *old(self),
            },
    {
        if let Some(s) = &mut self.switcher {
            if let Some(form) = &mut s.creating {
                match form.focus {
                    NewFormField::Path => form.path_input.push(c),
                    NewFormField::Branch => form.branch_input.push(c),
                }
                form.error = None;
            }
        }
    }

    /// Drops the last character of the focused field of the open form.
    pub fn switcher_form_pop_char(&mut self)
        ensures
            match open_form(*old(self)) {
                Some(f) => form_is(*old(self), *final(self), f@.erased()),
                None => *final(self) == *old(self),
            },
    {
        if let Some(s) = &mut self.switcher {
            if let Some(form) = &mut s.creating {
                match form.focus {
                    NewFormField::Path => text::drop_last_char(&mut form.path_input),
                    NewFormField::Branch => text::drop_last_char(&mut form.branch_input),
                }
                form.error = None;
            }
        }
    }

    /// Focuses the other field of the open form.
    pub fn switcher_form_toggle_focus(&mut self)
        ensures
            match open_form(*old(self)) {
                Some(f) => form_is(*old(self), *final(self), f@.refocused()),
                None => *final(self) == *old(self),
            },
    {
        if let Some(s) = &mut self.switcher {
            if let Some(form) = &mut s.creating {
                form.focus = match form.focus {
                    NewFormField::Path => NewFormField::Branch,
                    NewFormField::Branch => NewFormField::Path,
                };
            }
        }
    }

    /// Closes the form; the switcher stays open.
    pub fn switcher_form_cancel(&mut self)
        ensures
            *final(self) == match old(self).switcher {
                Some(s) => App {
                    switcher: Some(WorktreeSwitcher { creating: None, ..s }),
                    ..*old(self)
                },
                None => *old(self),
            },
    {
        if let Some(s) = &mut self.switcher {
            s.creating = None;
        }
    }

    /// A copy of the open form.
    pub fn switcher_form_snapshot(&self) -> (res: Option<NewWorktreeForm>)
        ensures
            res is Some == open_form(*self) is Some,
            res is Some ==> res->0@ == open_form(*self)->0@,
    {
        match &self.switcher {
            Some(s) => match &s.creating {
                Some(f) => Some(
                    NewWorktreeForm {
                        path_input: f.path_input.clone(),
                        branch_input: f.branch_input.clone(),
                        focus: f.focus,
                        error: match &f.error {
                            Some(e) => Some(e.clone()),
                            None => None,
                        },
                    },
                ),
                None => None,
            },
            None => None,
        }
    }

    /// Takes in the outcome of creating the worktree: queues a switch to it and
    /// closes the switcher, or shows the message in the form.
    pub fn switcher_form_finish(&mut self, result: Result<String, String>)
        ensures
            match result {
                Ok(path) => *final(self) == (App {
                    pending_switch: Some(path),
                    ..switcher_closed(*old(self))
                }),
                Err(msg) => match open_form(*old(self)) {
                    Some(f) => form_is(
                        *old(self),
                        *final(self),
                        FormModel { error: Some(msg@), ..f@ },
                    ),
                    None => *final(self) == *old(self),
                },
            },
    {
        match result {
            Ok(path) => {
                self.pending_switch = Some(path);
                self.close_switcher();
            },
            Err(msg) => {
                if let Some(s) = &mut self.switcher {
                    if let Some(form) = &mut s.creating {
                        form.error = Some(msg);
                    }
                }
            },
        }
    }

    /// Takes the queued worktree switch.
    pub fn take_pending_switch(&mut self) -> (res: Option<String>)
        ensures
            res == old(self).pending_switch,
            *final(self) == (App { pending_switch: None, ..*old(self) }),
    {
        self.pending_switch.take()
    }
}

/// A branch for a new worktree.
#[derive(Debug, PartialEq, Eq)]
pub enum BranchSpec {
    /// One that exists.
    Existing(String),
    /// One to create off the current commit.
    CreateOff(String),
}

/// A new worktree to create.
#[derive(Debug, PartialEq, Eq)]
pub struct NewWorktreeAction {
    pub path: String,
    pub branch: BranchSpec,
}

/// The branch that a form asks for: a new one of the name that was typed, or else
/// the one that the path's last component names.
pub open spec fn asks_for(form: NewWorktreeForm, branch: BranchSpec) -> bool {
    if text::trimmed(form.branch_input@).len() > 0 {
        branch matches BranchSpec::CreateOff(name) && name@ == text::trimmed(form.branch_input@)
    } else {
        branch matches BranchSpec::Existing(name) && name@ == match paths::file_name_of(
            text::trimmed(form.path_input@),
        ) {
            Some(dir) => dir,
            None => ""@,
        }
    }
}

/// What a form asks for.
pub fn resolve_form(form: &NewWorktreeForm) -> (res: NewWorktreeAction)
    ensures
        res.path@ == text::trimmed(form.path_input@),
        asks_for(*form, res.branch),
{
    let path = text::trim(form.path_input.as_str());
    let typed = text::trim(form.branch_input.as_str());
    let branch = if typed.as_str().is_empty() {
        match paths::file_name(path.as_str()) {
            Some(dir) => BranchSpec::Existing(dir),
            None => BranchSpec::Existing("".to_owned()),
        }
    } else {
        BranchSpec::CreateOff(typed)
    };
    NewWorktreeAction { path, branch }
}

/// The arguments of `git` that create a worktree.
pub open spec fn worktree_args(path: Seq<char>, branch: BranchSpec) -> Seq<Seq<char>> {
    match branch {
        BranchSpec::Existing(name) => seq!["worktree"@, "add"@, path, name@],
        BranchSpec::CreateOff(name) => seq!["worktree"@, "add"@, "-b"@, name@, path],
    }
}

/// The arguments of `git` that create the worktree; refused without a path.
pub fn create_worktree_args(action: &NewWorktreeAction) -> (res: Result<Vec<String>, String>)
    ensures
        match res {
            Ok(argv) => text::trimmed(action.path@).len() > 0 && argv.deep_view() == worktree_args(
                text::trimmed(action.path@),
                action.branch,
            ),
            Err(e) => text::trimmed(action.path@).len() == 0 && e@ == "path is required"@,
        },
{
    let path = text::trim(action.path.as_str());
    if path.as_str().is_empty() {
        return Err("path is required".to_owned());
    }
    let mut argv: Vec<String> = Vec::new();
    argv.push("worktree".to_owned());
    argv.push("add".to_owned());
    match &action.branch {
        BranchSpec::Existing(name) => {
            argv.push(path);
            argv.push(name.clone());
        },
        BranchSpec::CreateOff(name) => {
            argv.push("-b".to_owned());
            argv.push(name.clone());
            argv.push(path);
        },
    }
    assert(argv.deep_view() =~= worktree_args(text::trimmed(action.path@), action.branch));
    Ok(argv)
}

/// What a failed `git worktree add` reports: its message, or else its exit code.
pub open spec fn worktree_failure(stderr: Seq<char>, code: int) -> Seq<char> {
    if text::trimmed(stderr).len() > 0 {
        text::trimmed(stderr)
    } else {
        "git worktree add failed (exit "@ + text::signed_digits(code) + ")"@
    }
}

/// What a failed `git worktree add` reports; `code` is -1 for one that was killed.
pub fn worktree_failure_text(stderr: &str, code: i32) -> (res: String)
    ensures
        res@ == worktree_failure(stderr@, code as int),
{
    let message = text::trim(stderr);
    if message.as_str().is_empty() {
        let n = text::signed_decimal(code as i64);
        text::concat3("git worktree add failed (exit ", n.as_str(), ")")
    } else {
        message
    }
}

/// A row shows its worktree as git lists it, and is the current one exactly where its
/// directory has the components of the dashboard's.
pub proof fn law_rows_show_their_worktree(
    row: WorktreeRow,
    entry: WorktreeListEntry,
    canonical: Seq<char>,
    current: Seq<char>,
)
    requires
        row_of(row, entry, canonical, current),
    ensures
        row.path@ == entry.path@,
        row.branch is Some <==> entry.branch is Some,
        row.branch is Some ==> row.branch->0@ == entry.branch->0@,
        row.slug@ == worktree::entry_slug(entry),
        row.is_current <==> paths::components_of(canonical) == paths::components_of(current),
{
}

/// What is typed goes to the focused field, and so does what is erased; the other field
/// stays.
pub proof fn law_typing_goes_to_the_focused_input(form: FormModel, c: char)
    ensures
        ({
            let typed = form.typed(c);
            let erased = form.erased();
            let (p, b) = (form.path_input, form.branch_input);
            &&& typed.focus == form.focus && erased.focus == form.focus
            &&& typed.error is None && erased.error is None
            &&& form.focus == NewFormField::Path ==> typed.path_input == p.push(c)
                && typed.branch_input == b && erased.branch_input == b && (p.len() > 0 ==>
                erased.path_input.push(p.last()) == p)
            &&& form.focus == NewFormField::Branch ==> typed.branch_input == b.push(c)
                && typed.path_input == p && erased.path_input == p && (b.len() > 0 ==>
                erased.branch_input.push(b.last()) == b)
        }),
{
    let (p, b) = (form.path_input, form.branch_input);
    assert(p.len() > 0 ==> p.drop_last().push(p.last()) =~= p);
    assert(b.len() > 0 ==> b.drop_last().push(b.last()) =~= b);
}

/// A new worktree's path begins with the directory that holds the project, and a
/// separator behind it.
pub proof fn law_new_worktrees_stand_beside_the_project(root: Seq<char>)
    ensures
        ({
            let prefix = new_worktree_prefix(root);
            let dir = match paths::parent_of(root) {
                Some(up) => up,
                None => root,
            };
            &&& dir.len() > 0 && dir.last() != '/' ==> prefix == dir.push('/')
            &&& dir.len() == 0 || dir.last() == '/' ==> prefix == dir
        }),
{
    let dir = match paths::parent_of(root) {
        Some(up) => up,
        None => root,
    };
    let prefix = new_worktree_prefix(root);
    paths::law_joined_paths_hold_both(dir, Seq::empty());
    if dir.len() > 0 && dir.last() != '/' {
        assert(prefix =~= dir.push('/')) by {
            assert forall|i: int| 0 <= i < dir.len() implies prefix[i] == dir[i] by {
                assert(prefix.take(dir.len() as int)[i] == prefix[i]);
            }
        }
    } else if dir.len() > 0 {
        assert(prefix =~= prefix.take(dir.len() as int));
    } else {
        assert(prefix =~= dir);
    }
}

/// A form with a branch asks for a new one of that name; a form without asks for the
/// one that is named like the directory.
pub proof fn law_forms_ask_for_their_branch(form: NewWorktreeForm, branch: BranchSpec)
    requires
        asks_for(form, branch),
    ensures
        ({
            let typed = text::trimmed(form.branch_input@);
            let dir = paths::file_name_of(text::trimmed(form.path_input@));
            &&& typed.len() > 0 ==> (branch matches BranchSpec::CreateOff(name) && name@ == typed)
            &&& typed.len() == 0 && dir is Some ==> (branch matches BranchSpec::Existing(name)
                && name@ == dir->0)
            &&& typed.len() == 0 && dir is None ==> (branch matches BranchSpec::Existing(name)
                && name@.len() == 0)
        }),
{
    reveal_strlit("");
}

/// git is told the path and the branch; only a new branch is told to be created.
pub proof fn law_git_is_told_path_and_branch(path: Seq<char>, branch: BranchSpec)
    ensures
        ({
            let args = worktree_args(path, branch);
            &&& args[0] == "worktree"@ && args[1] == "add"@
            &&& branch matches BranchSpec::Existing(name) ==> args.len() == 4 && args[2] == path
                && args[3] == name@
            &&& branch matches BranchSpec::CreateOff(name) ==> args.len() == 5 && args[2] == "-b"@
                && args[3] == name@ && args[4] == path
        }),
{
}

/// A failure is told in git's words, and with its exit code where it has none.
pub proof fn law_git_failures_are_told(stderr: Seq<char>, code: int)
    ensures
        ({
            let blank = forall|i: int|
                0 <= i < stderr.len() ==> text::is_space(#[trigger] stderr[i]);
            &&& !blank ==> worktree_failure(stderr, code) == text::trimmed(stderr)
            &&& blank ==> worktree_failure(stderr, code) == "git worktree add failed (exit "@
                + text::signed_digits(code) + ")"@
        }),
{
    text::law_trimming_takes_white_space_off(stderr);
    let (a, b) = text::trim_bounds(stderr);
    if a < b {
        assert(!text::is_space(stderr[a]));
    }
}

/// The current worktree is the first that is marked.
pub proof fn law_the_first_current_worktree_counts(entries: Seq<WorktreeRow>, i: int, k: int)
    requires
        current_at(entries, i),
        0 <= k < entries.len(),
        entries[k].is_current,
    ensures
        0 <= i <= k,
        entries[i].is_current,
{
}

/// The model of a form has each field under its own name.
pub proof fn law_forms_say_their_fields(f: NewWorktreeForm)
    ensures
        f@.path_input == f.path_input@ && f@.branch_input == f.branch_input@,
        f@.focus == f.focus && f@.error == f.error.deep_view(),
{
}

} // verus!
