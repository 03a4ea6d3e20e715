//! What git and tmux print, read into the dashboard's types.
use crate::text;
use crate::text::{concat, find, lines, split, split_whitespace, splitn, suffix, trim};
use crate::textmap;
use crate::textmap::TextMap;
use crate::tui::diff;
use crate::tui::diff::{DiffFile, DiffLine, DiffLineKind, DiffStatus};
use crate::tui::terminals;
use crate::tui::terminals::TmuxWindow;
use crate::lists;
use vstd::prelude::*;

verus! {

// ---------------------------------------------------------------------------
// tmux windows
// ---------------------------------------------------------------------------
/// The window that a line of `tmux list-windows` describes: index, name and
/// directory between tabs. A line without a name or a number describes none.
pub open spec fn window_of_line(line: Seq<char>) -> Option<terminals::WindowModel> {
    let parts = text::pieces_n(line, '\t', 3);
    if parts.len() < 2 {
        None
    } else {
        match text::unsigned_value(parts[0], u32::MAX as nat) {
            Some(index) => Some(
                terminals::WindowModel {
                    index: index as u32,
                    name: parts[1],
                    cwd: if parts.len() > 2 && parts[2].len() > 0 {
                        Some(parts[2])
                    } else {
                        None
                    },
                },
            ),
            None => None,
        }
    }
}

/// The windows that the first `n` lines describe.
pub open spec fn windows_of(lines: Seq<Seq<char>>, n: nat) -> Seq<terminals::WindowModel>
    decreases n,
{
    if n == 0 {
        seq![]
    } else {
        let rest = windows_of(lines, (n - 1) as nat);
        match window_of_line(lines[n - 1]) {
            Some(w) => rest.push(w),
            None => rest,
        }
    }
}

fn window_from_line(line: &str) -> (res: Option<TmuxWindow>)
    ensures
        res.deep_view() == window_of_line(line@),
{
    let parts = splitn(line, 3, '\t');
    let ghost all = parts.deep_view();
    if parts.len() < 2 {
        return None;
    }
    assert(all[0] == parts@[0]@ && all[1] == parts@[1]@);
    let index: u32 = match text::parse_u32(parts[0].as_str()) {
        Some(i) => i,
        None => return None,
    };
    let cwd: Option<String> = if parts.len() > 2 && !parts[2].as_str().is_empty() {
        Some(parts[2].clone())
    } else {
        None
    };
    assert(parts@.len() > 2 ==> all[2] == parts@[2]@);
    Some(TmuxWindow { index, name: parts[1].clone(), cwd })
}

/// Reads the output of `tmux list-windows`, skipping malformed lines.
pub fn parse_tmux_windows(input: &str) -> (res: Vec<TmuxWindow>)
    ensures
        res.deep_view() == windows_of(text::lines_of(input@), text::lines_of(input@).len()),
{
    let all = lines(input);
    let ghost models = all.deep_view();
    let mut out: Vec<TmuxWindow> = Vec::new();
    let mut i: usize = 0;
    assert(out.deep_view() =~= windows_of(models, 0));
    while i < all.len()
        invariant
            i <= all@.len(),
            models == all.deep_view(),
            out.deep_view() == windows_of(models, i as nat),
        decreases all@.len() - i,
    {
        assert(models[i as int] == all@[i as int]@);
        let ghost before = out.deep_view();
        if let Some(w) = window_from_line(all[i].as_str()) {
            out.push(w);
            assert(out.deep_view() =~= before.push(w.deep_view()));
        }
        i += 1;
    }
    out
}

// ---------------------------------------------------------------------------
// The trunk
// ---------------------------------------------------------------------------
/// The branches that a trunk may be, the likeliest first.
pub open spec fn trunk_names() -> Seq<Seq<char>> {
    seq!["main"@, "master"@, "develop"@, "trunk"@]
}

/// The branches that a trunk may be, the likeliest first.
pub fn local_trunks() -> (res: Vec<String>)
    ensures
        res.deep_view() == trunk_names(),
{
    let mut names: Vec<String> = Vec::new();
    names.push("main".to_owned());
    names.push("master".to_owned());
    names.push("develop".to_owned());
    names.push("trunk".to_owned());
    assert(names.deep_view() =~= trunk_names());
    names
}

/// The first of `names` from place `i` on that exists.
pub open spec fn first_present(names: Seq<Seq<char>>, present: Seq<bool>, i: int) -> Option<
    Seq<char>,
>
    decreases names.len() - i,
{
    if i >= names.len() || i >= present.len() {
        None
    } else if present[i] {
        Some(names[i])
    } else {
        first_present(names, present, i + 1)
    }
}

/// The branch that changes are held against: the configured one, else the default
/// branch of the remote, else the first of the usual names that exists.
pub open spec fn trunk_of(
    configured: Option<Seq<char>>,
    remote: Option<Seq<char>>,
    present: Seq<bool>,
) -> Option<Seq<char>> {
    if configured is Some {
        configured
    } else if remote is Some {
        remote
    } else {
        first_present(trunk_names(), present, 0)
    }
}

/// The branch that changes are held against; `present` says which of the usual
/// names exist.
pub fn pick_trunk(configured: Option<String>, remote: Option<String>, present: &Vec<bool>) -> (res:
    Option<String>)
    ensures
        res.deep_view() == trunk_of(configured.deep_view(), remote.deep_view(), present@),
{
    if configured.is_some() {
        return configured;
    }
    if remote.is_some() {
        return remote;
    }
    let names = local_trunks();
    assert(names@.len() == names.deep_view().len());
    let mut i: usize = 0;
    while i < names.len() && i < present.len()
        invariant
            i <= names@.len(),
            i <= present@.len(),
            configured is None,
            remote is None,
            names.deep_view() == trunk_names(),
            names@.len() == trunk_names().len(),
            first_present(trunk_names(), present@, i as int) == first_present(
                trunk_names(),
                present@,
                0,
            ),
        decreases names@.len() - i,
    {
        assert(trunk_names()[i as int] == names@[i as int]@);
        if present[i] {
            return Some(names[i].clone());
        }
        i += 1;
    }
    None
}

// ---------------------------------------------------------------------------
// Changed files
// ---------------------------------------------------------------------------
/// Added and deleted lines of one file.
#[derive(Debug, PartialEq, Eq)]
pub struct NumstatEntry {
    pub path: String,
    pub additions: usize,
    pub deletions: usize,
    pub binary: bool,
}

/// What a [`NumstatEntry`] says.
pub ghost struct ChurnModel {
    pub path: Seq<char>,
    pub additions: nat,
    pub deletions: nat,
    pub binary: bool,
}

impl DeepView for NumstatEntry {
    type V = ChurnModel;

    open spec fn deep_view(&self) -> ChurnModel {
        ChurnModel {
            path: self.path@,
            additions: self.additions as nat,
            deletions: self.deletions as nat,
            binary: self.binary,
        }
    }
}

/// The path after the first `arrow`, or all of it.
pub open spec fn after_arrow(path: Seq<char>, arrow: Seq<char>) -> Option<Seq<char>> {
    match text::find_from(path, arrow, 0) {
        Some(i) => Some(path.skip(i + arrow.len())),
        None => None,
    }
}

/// Whether a brace at place `i` opens the part of a path that a rename replaced: it
/// stands at the start or behind a slash.
pub open spec fn opens_at(path: Seq<char>, i: int) -> bool {
    0 <= i < path.len() && path[i] == '{' && (i == 0 || path[i - 1] == '/')
}

/// Whether a brace at place `i` closes the part of a path that a rename replaced:
/// it stands at the end or before a slash.
pub open spec fn closes_at(path: Seq<char>, i: int) -> bool {
    0 <= i < path.len() && path[i] == '}' && (i == path.len() - 1 || path[i + 1] == '/')
}

/// The last opening brace before place `n`.
pub open spec fn last_opening(path: Seq<char>, n: int) -> Option<int>
    decreases n,
{
    if n <= 0 {
        None
    } else if opens_at(path, n - 1) {
        Some(n - 1)
    } else {
        last_opening(path, n - 1)
    }
}

/// The first closing brace from place `n` on.
pub open spec fn next_closing(path: Seq<char>, n: int) -> Option<int>
    decreases path.len() - n,
{
    if n >= path.len() {
        None
    } else if closes_at(path, n) {
        Some(n)
    } else {
        next_closing(path, n + 1)
    }
}

/// A path of three parts. Where the middle is empty, the slash that stands on
/// either side of it is written once.
pub open spec fn path_of_parts(pre: Seq<char>, mid: Seq<char>, post: Seq<char>) -> Seq<char> {
    if mid.len() == 0 && post.len() > 0 && post[0] == '/' {
        pre + post.skip(1)
    } else {
        pre + mid + post
    }
}

/// The destination of a renamed path. `old => new` is renamed to `new`, and
/// `pre{old => new}post` to the path made of `pre`, `new` and `post`.
pub open spec fn rename_target(path: Seq<char>) -> Seq<char> {
    match text::find_from(path, " => "@, 0) {
        Some(i) => {
            let from = i + " => "@.len();
            match (last_opening(path, i), next_closing(path, from)) {
                (Some(open), Some(close)) => path_of_parts(
                    path.take(open),
                    path.subrange(from, close),
                    path.skip(close + 1),
                ),
                _ => path.skip(from),
            }
        },
        None => path,
    }
}

proof fn lemma_last_opening(path: Seq<char>, n: int, open: int)
    requires
        0 <= open < n,
        opens_at(path, open),
        forall|k: int| open < k < n ==> !opens_at(path, k),
    ensures
        last_opening(path, n) == Some(open),
    decreases n,
{
    if n - 1 > open {
        assert(!opens_at(path, n - 1));
        lemma_last_opening(path, n - 1, open);
    }
}

proof fn lemma_next_closing(path: Seq<char>, n: int, close: int)
    requires
        0 <= n <= close,
        closes_at(path, close),
        forall|k: int| n <= k < close ==> !closes_at(path, k),
    ensures
        next_closing(path, n) == Some(close),
    decreases close - n,
{
    if n < close {
        assert(!closes_at(path, n));
        lemma_next_closing(path, n + 1, close);
    }
}

proof fn lemma_found(path: Seq<char>, pat: Seq<char>, at: int, place: int)
    requires
        0 <= at <= place,
        text::occurs_at(path, pat, place),
        forall|k: int| at <= k < place ==> !text::occurs_at(path, pat, k),
    ensures
        text::find_from(path, pat, at) == Some(place),
    decreases place - at,
{
    if at < place {
        assert(!text::occurs_at(path, pat, at));
        lemma_found(path, pat, at + 1, place);
    }
}

/// A rename within directories goes by its new path: what `git diff --name-status`
/// prints for it.
pub proof fn law_renames_go_by_the_new_path(
    pre: Seq<char>,
    old_part: Seq<char>,
    new_part: Seq<char>,
    post: Seq<char>,
)
    requires
        pre.len() == 0 || pre.last() == '/',
        post.len() == 0 || post[0] == '/',
        !pre.contains('>') && !old_part.contains('>'),
        !old_part.contains('{'),
        !new_part.contains('}'),
    ensures
        rename_target(pre + seq!['{'] + old_part + " => "@ + new_part + seq!['}'] + post)
            == path_of_parts(pre, new_part, post),
{
    reveal_strlit(" => ");
    let arrow = " => "@;
    let path = pre + seq!['{'] + old_part + arrow + new_part + seq!['}'] + post;
    let open = pre.len() as int;
    let place = open + 1 + old_part.len();
    let from = place + 4;
    let close = from + new_part.len();
    assert(path.subrange(place, from) =~= arrow);
    assert forall|k: int| 0 <= k < place implies !text::occurs_at(path, arrow, k) by {
        if text::occurs_at(path, arrow, k) {
            assert(path.subrange(k, k + 4)[2] == '>');
            assert(path[k + 2] == '>');
            if k + 2 < open {
                assert(pre[k + 2] == '>');
            } else if open < k + 2 < place {
                assert(old_part[k + 2 - open - 1] == '>');
            }
        }
    }
    lemma_found(path, arrow, 0, place);
    assert(opens_at(path, open));
    assert forall|k: int| open < k < place implies !opens_at(path, k) by {
        assert(path[k] == old_part[k - open - 1]);
    }
    lemma_last_opening(path, place, open);
    assert(path[close] == '}');
    assert(path.skip(close + 1) =~= post);
    assert(post.len() > 0 ==> path[close + 1] == post[0]);
    assert(closes_at(path, close));
    assert forall|k: int| from <= k < close implies !closes_at(path, k) by {
        assert(path[k] == new_part[k - from]);
    }
    lemma_next_closing(path, from, close);
    assert(path.take(open) =~= pre);
    assert(path.subrange(from, close) =~= new_part);
}

/// The count that a field writes; zero for anything else.
pub open spec fn count_value(field: Seq<char>) -> nat {
    match text::unsigned_value(field, usize::MAX as nat) {
        Some(n) => n,
        None => 0,
    }
}

/// The entry that a line of `git diff --numstat` describes.
pub open spec fn churn_of_line(line: Seq<char>) -> Option<ChurnModel> {
    let parts = text::pieces_n(line, '\t', 3);
    if parts.len() < 3 || text::trimmed(parts[2]).len() == 0 {
        None
    } else {
        let binary = parts[0] == "-"@ && parts[1] == "-"@;
        Some(
            ChurnModel {
                path: rename_target(text::trimmed(parts[2])),
                additions: if binary {
                    0
                } else {
                    count_value(parts[0])
                },
                deletions: if binary {
                    0
                } else {
                    count_value(parts[1])
                },
                binary,
            },
        )
    }
}

/// The entries of the first `n` lines.
pub open spec fn churns_of(lines: Seq<Seq<char>>, n: nat) -> Seq<ChurnModel>
    decreases n,
{
    if n == 0 {
        seq![]
    } else {
        let rest = churns_of(lines, (n - 1) as nat);
        match churn_of_line(lines[n - 1]) {
            Some(c) => rest.push(c),
            None => rest,
        }
    }
}

fn cut_after(path: &str, arrow: &str) -> (res: Option<String>)
    ensures
        res.deep_view() == after_arrow(path@, arrow@),
{
    match find(path, arrow) {
        Some(i) => {
            let n: usize = text::char_count(arrow);
            let total: usize = text::char_count(path);
            Some(suffix(path, i + n))
        },
        None => None,
    }
}

fn opening_before(path: &Vec<char>, n: usize) -> (res: Option<usize>)
    requires
        n <= path@.len(),
    ensures
        match res {
            Some(i) => last_opening(path@, n as int) == Some(i as int) && i < n,
            None => last_opening(path@, n as int) is None,
        },
{
    let mut i: usize = n;
    while i > 0
        invariant
            i <= n <= path@.len(),
            last_opening(path@, i as int) == last_opening(path@, n as int),
        decreases i,
    {
        if path[i - 1] == '{' && (i == 1 || path[i - 2] == '/') {
            return Some(i - 1);
        }
        i -= 1;
    }
    None
}

fn closing_from(path: &Vec<char>, n: usize) -> (res: Option<usize>)
    requires
        n <= path@.len(),
    ensures
        match res {
            Some(i) => next_closing(path@, n as int) == Some(i as int) && n <= i < path@.len(),
            None => next_closing(path@, n as int) is None,
        },
{
    let mut i: usize = n;
    while i < path.len()
        invariant
            n <= i <= path@.len(),
            next_closing(path@, i as int) == next_closing(path@, n as int),
        decreases path@.len() - i,
    {
        if path[i] == '}' && (i == path.len() - 1 || path[i + 1] == '/') {
            return Some(i);
        }
        i += 1;
    }
    None
}

fn destination(path: &str) -> (res: String)
    ensures
        res@ == rename_target(path@),
{
    match find(path, " => ") {
        Some(i) => {
            let arrow: usize = text::char_count(" => ");
            let chars = text::to_chars(path);
            let total: usize = chars.len();
            assert(i + arrow <= total);
            let from: usize = i + arrow;
            if let Some(open) = opening_before(&chars, i) {
                if let Some(close) = closing_from(&chars, from) {
                    let pre = text::substring(&chars, 0, open);
                    let mid = text::substring(&chars, from, close);
                    let shared = from == close && close + 1 < chars.len() && chars[close + 1]
                        == '/';
                    let skip: usize = if shared {
                        close + 2
                    } else {
                        close + 1
                    };
                    let post = text::substring(&chars, skip, chars.len());
                    assert(pre@ =~= path@.take(open as int));
                    if shared {
                        assert(path@.skip(close + 1).skip(1) =~= path@.skip(close + 2));
                    }
                    assert(post@ =~= path@.skip(skip as int));
                    assert(pre@ + mid@ + post@ =~= rename_target(path@));
                    return text::concat3(pre.as_str(), mid.as_str(), post.as_str());
                }
            }
            suffix(path, from)
        },
        None => path.to_owned(),
    }
}

fn count_of(field: &str) -> (res: usize)
    ensures
        res == count_value(field@),
{
    match text::parse_usize(field) {
        Some(n) => n,
        None => 0,
    }
}

fn churn_from_line(line: &str) -> (res: Option<NumstatEntry>)
    ensures
        res.deep_view() == churn_of_line(line@),
{
    let parts = splitn(line, 3, '\t');
    let ghost all = parts.deep_view();
    if parts.len() < 3 {
        return None;
    }
    assert(all[0] == parts@[0]@ && all[1] == parts@[1]@ && all[2] == parts@[2]@);
    let path = trim(parts[2].as_str());
    if path.as_str().is_empty() {
        return None;
    }
    let dest = destination(path.as_str());
    let binary = *parts[0].as_str() == *"-" && *parts[1].as_str() == *"-";
    let additions: usize = if binary {
        0
    } else {
        count_of(parts[0].as_str())
    };
    let deletions: usize = if binary {
        0
    } else {
        count_of(parts[1].as_str())
    };
    Some(NumstatEntry { path: dest, additions, deletions, binary })
}

/// Reads the output of `git diff --numstat`. Binary files count nothing; a rename
/// goes by its destination.
pub fn parse_numstat(input: &str) -> (res: Vec<NumstatEntry>)
    ensures
        res.deep_view() == churns_of(text::lines_of(input@), text::lines_of(input@).len()),
{
    let all = lines(input);
    let ghost models = all.deep_view();
    let mut out: Vec<NumstatEntry> = Vec::new();
    let mut i: usize = 0;
    assert(out.deep_view() =~= churns_of(models, 0));
    while i < all.len()
        invariant
            i <= all@.len(),
            models == all.deep_view(),
            out.deep_view() == churns_of(models, i as nat),
        decreases all@.len() - i,
    {
        assert(models[i as int] == all@[i as int]@);
        let ghost before = out.deep_view();
        if let Some(c) = churn_from_line(all[i].as_str()) {
            out.push(c);
            assert(out.deep_view() =~= before.push(c.deep_view()));
        }
        i += 1;
    }
    out
}

/// A changed path and how it changed.
#[derive(Debug, PartialEq, Eq)]
pub struct DiffNameStatusEntry {
    pub path: String,
    pub status: DiffStatus,
}

/// What a [`DiffNameStatusEntry`] says.
pub ghost struct ChangeModel {
    pub path: Seq<char>,
    pub status: DiffStatus,
}

impl DeepView for DiffNameStatusEntry {
    type V = ChangeModel;

    open spec fn deep_view(&self) -> ChangeModel {
        ChangeModel { path: self.path@, status: self.status }
    }
}

/// The status that a letter of `git diff --name-status` stands for.
pub open spec fn status_of_letter(letter: char) -> DiffStatus {
    if letter == 'A' {
        DiffStatus::Added
    } else if letter == 'D' {
        DiffStatus::Deleted
    } else if letter == 'M' {
        DiffStatus::Modified
    } else if letter == 'R' {
        DiffStatus::Renamed
    } else {
        DiffStatus::Other
    }
}

/// The entry that a line of `git diff --name-status` describes: a status letter,
/// a tab and a path, or two paths of which the second is the destination.
pub open spec fn change_of_line(line: Seq<char>) -> Option<ChangeModel> {
    let parts = text::pieces(line, '\t');
    let status = status_of_letter(
        if parts[0].len() > 0 {
            parts[0][0]
        } else {
            ' '
        },
    );
    if line.len() == 0 {
        None
    } else if parts.len() >= 3 && parts[2].len() > 0 {
        Some(ChangeModel { path: parts[2], status })
    } else if parts.len() == 2 && parts[1].len() > 0 {
        Some(ChangeModel { path: parts[1], status })
    } else {
        None
    }
}

/// The entries of the first `n` lines.
pub open spec fn changes_of(lines: Seq<Seq<char>>, n: nat) -> Seq<ChangeModel>
    decreases n,
{
    if n == 0 {
        seq![]
    } else {
        let rest = changes_of(lines, (n - 1) as nat);
        match change_of_line(lines[n - 1]) {
            Some(c) => rest.push(c),
            None => rest,
        }
    }
}

fn letter_status(letter: char) -> (res: DiffStatus)
    ensures
        res == status_of_letter(letter),
{
    if letter == 'A' {
        DiffStatus::Added
    } else if letter == 'D' {
        DiffStatus::Deleted
    } else if letter == 'M' {
        DiffStatus::Modified
    } else if letter == 'R' {
        DiffStatus::Renamed
    } else {
        DiffStatus::Other
    }
}

fn change_from_line(line: &str) -> (res: Option<DiffNameStatusEntry>)
    ensures
        res.deep_view() == change_of_line(line@),
{
    if line.is_empty() {
        return None;
    }
    let parts = split(line, '\t');
    let ghost all = parts.deep_view();
    assert(all[0] == parts@[0]@);
    let field = text::to_chars(parts[0].as_str());
    let letter: char = if field.len() > 0 {
        field[0]
    } else {
        ' '
    };
    let status = letter_status(letter);
    if parts.len() >= 3 {
        assert(all[2] == parts@[2]@);
        if parts[2].as_str().is_empty() {
            None
        } else {
            Some(DiffNameStatusEntry { path: parts[2].clone(), status })
        }
    } else if parts.len() == 2 {
        assert(all[1] == parts@[1]@);
        if parts[1].as_str().is_empty() {
            None
        } else {
            Some(DiffNameStatusEntry { path: parts[1].clone(), status })
        }
    } else {
        None
    }
}

/// Reads the output of `git diff --name-status`, skipping blank and malformed
/// lines.
pub fn parse_diff_name_status(input: &str) -> (res: Vec<DiffNameStatusEntry>)
    ensures
        res.deep_view() == changes_of(text::lines_of(input@), text::lines_of(input@).len()),
{
    let all = lines(input);
    let ghost models = all.deep_view();
    let mut out: Vec<DiffNameStatusEntry> = Vec::new();
    let mut i: usize = 0;
    assert(out.deep_view() =~= changes_of(models, 0));
    while i < all.len()
        invariant
            i <= all@.len(),
            models == all.deep_view(),
            out.deep_view() == changes_of(models, i as nat),
        decreases all@.len() - i,
    {
        assert(models[i as int] == all@[i as int]@);
        let ghost before = out.deep_view();
        if let Some(c) = change_from_line(all[i].as_str()) {
            out.push(c);
            assert(out.deep_view() =~= before.push(c.deep_view()));
        }
        i += 1;
    }
    out
}

/// The number of bytes that a character takes in UTF-8.
pub open spec fn char_width(c: char) -> nat {
    let n = c as u32;
    if n < 0x80 {
        1
    } else if n < 0x800 {
        2
    } else if n < 0x10000 {
        3
    } else {
        4
    }
}

/// How many characters the first three bytes of a status line hold; none when the
/// third byte ends inside a character.
pub open spec fn status_columns(line: Seq<char>) -> Option<nat> {
    if line.len() >= 1 && char_width(line[0]) == 3 {
        Some(1)
    } else if line.len() >= 2 && char_width(line[0]) + char_width(line[1]) == 3 {
        Some(2)
    } else if line.len() >= 3 && char_width(line[0]) == 1 && char_width(line[1]) == 1
        && char_width(line[2]) == 1 {
        Some(3)
    } else {
        None
    }
}

/// Whether a line of `git status --porcelain` can be told apart into its status
/// columns and its path.
pub open spec fn status_line_splits(line: Seq<char>) -> bool {
    text::utf8_len(line) >= 4 ==> status_columns(line) is Some
}

/// The status that the two status columns stand for. The second counts only
/// behind a plain first one.
pub open spec fn status_of_columns(line: Seq<char>) -> DiffStatus {
    let plain0 = char_width(line[0]) == 1;
    let plain1 = plain0 && line.len() > 1 && char_width(line[1]) == 1;
    let is0 = |c: char| plain0 && line[0] == c;
    let is1 = |c: char| plain1 && line[1] == c;
    if is0('?') && is1('?') {
        DiffStatus::Untracked
    } else if is0('A') || is1('A') {
        DiffStatus::Added
    } else if is0('D') || is1('D') {
        DiffStatus::Deleted
    } else if is0('R') || is1('R') {
        DiffStatus::Renamed
    } else if is0('M') || is1('M') {
        DiffStatus::Modified
    } else {
        DiffStatus::Other
    }
}

/// The file that a line of `git status --porcelain` describes.
pub open spec fn file_of_status_line(line: Seq<char>) -> Option<diff::FileModel> {
    if text::utf8_len(line) < 4 || status_columns(line) is None {
        None
    } else {
        let rest = line.skip(status_columns(line)->0 as int);
        Some(
            diff::FileModel {
                path: match after_arrow(rest, " -> "@) {
                    Some(to) => to,
                    None => rest,
                },
                status: status_of_columns(line),
                additions: 0,
                deletions: 0,
                binary: false,
            },
        )
    }
}

/// The files of the first `n` lines.
pub open spec fn status_files(lines: Seq<Seq<char>>, n: nat) -> Seq<diff::FileModel>
    decreases n,
{
    if n == 0 {
        seq![]
    } else {
        let rest = status_files(lines, (n - 1) as nat);
        match file_of_status_line(lines[n - 1]) {
            Some(f) => rest.push(f),
            None => rest,
        }
    }
}

fn width_of(c: char) -> (res: u32)
    ensures
        res == char_width(c),
{
    let n: u32 = c as u32;
    if n < 0x80 {
        1
    } else if n < 0x800 {
        2
    } else if n < 0x10000 {
        3
    } else {
        4
    }
}

fn columns_of(chars: &Vec<char>) -> (res: Option<usize>)
    ensures
        res is Some == status_columns(chars@) is Some,
        res is Some ==> res->0 as nat == status_columns(chars@)->0 && res->0 <= chars@.len()
            && chars@.len() >= 1,
{
    if chars.len() >= 1 && width_of(chars[0]) == 3 {
        Some(1)
    } else if chars.len() >= 2 && width_of(chars[0]) + width_of(chars[1]) == 3 {
        Some(2)
    } else if chars.len() >= 3 && width_of(chars[0]) == 1 && width_of(chars[1]) == 1 && width_of(
        chars[2],
    ) == 1 {
        Some(3)
    } else {
        None
    }
}

fn columns_status(chars: &Vec<char>) -> (res: DiffStatus)
    requires
        chars@.len() >= 1,
    ensures
        res == status_of_columns(chars@),
{
    let plain0 = width_of(chars[0]) == 1;
    let plain1 = plain0 && chars.len() > 1 && width_of(chars[1]) == 1;
    let x: char = if plain0 {
        chars[0]
    } else {
        ' '
    };
    let y: char = if plain1 {
        chars[1]
    } else {
        ' '
    };
    if x == '?' && y == '?' {
        DiffStatus::Untracked
    } else if x == 'A' || y == 'A' {
        DiffStatus::Added
    } else if x == 'D' || y == 'D' {
        DiffStatus::Deleted
    } else if x == 'R' || y == 'R' {
        DiffStatus::Renamed
    } else if x == 'M' || y == 'M' {
        DiffStatus::Modified
    } else {
        DiffStatus::Other
    }
}

fn file_from_status_line(line: &str) -> (res: Option<DiffFile>)
    ensures
        res.deep_view() == file_of_status_line(line@),
{
    if text::byte_len(line) < 4 {
        return None;
    }
    let chars = text::to_chars(line);
    let n: usize = match columns_of(&chars) {
        Some(n) => n,
        None => return None,
    };
    let status = columns_status(&chars);
    let rest = suffix(line, n);
    let path = match cut_after(rest.as_str(), " -> ") {
        Some(to) => to,
        None => rest,
    };
    Some(DiffFile { path, status, additions: 0, deletions: 0, binary: false })
}

/// Reads the output of `git status --porcelain=v1`: two status columns, a space and
/// a path, or two paths around an arrow of which the second counts.
pub fn parse_status_porcelain(input: &str) -> (res: Vec<DiffFile>)
    requires
        forall|i: int|
            0 <= i < text::lines_of(input@).len() ==> status_line_splits(
                #[trigger] text::lines_of(input@)[i],
            ),
    ensures
        res.deep_view() == status_files(text::lines_of(input@), text::lines_of(input@).len()),
{
    let all = lines(input);
    let ghost models = all.deep_view();
    let mut out: Vec<DiffFile> = Vec::new();
    let mut i: usize = 0;
    assert(out.deep_view() =~= status_files(models, 0));
    while i < all.len()
        invariant
            i <= all@.len(),
            models == all.deep_view(),
            out.deep_view() == status_files(models, i as nat),
        decreases all@.len() - i,
    {
        assert(models[i as int] == all@[i as int]@);
        let ghost before = out.deep_view();
        if let Some(f) = file_from_status_line(all[i].as_str()) {
            out.push(f);
            assert(out.deep_view() =~= before.push(f.deep_view()));
        }
        i += 1;
    }
    out
}

/// Whether every line can be read by [`parse_status_porcelain`].
pub fn status_output_splits(input: &str) -> (res: bool)
    ensures
        res == forall|i: int|
            0 <= i < text::lines_of(input@).len() ==> status_line_splits(
                #[trigger] text::lines_of(input@)[i],
            ),
{
    let all = lines(input);
    let ghost models = all.deep_view();
    let mut i: usize = 0;
    while i < all.len()
        invariant
            i <= all@.len(),
            models == all.deep_view(),
            models == text::lines_of(input@),
            forall|k: int| 0 <= k < i ==> status_line_splits(#[trigger] models[k]),
        decreases all@.len() - i,
    {
        assert(models[i as int] == all@[i as int]@);
        let line = all[i].as_str();
        let chars = text::to_chars(line);
        if text::byte_len(line) >= 4 && columns_of(&chars).is_none() {
            assert(!status_line_splits(models[i as int]));
            return false;
        }
        i += 1;
    }
    true
}

// ---------------------------------------------------------------------------
// Merging the three queries
// ---------------------------------------------------------------------------
/// A file that changed in some way, its churn not counted yet.
pub open spec fn uncounted(path: Seq<char>, status: DiffStatus) -> diff::FileModel {
    diff::FileModel { path, status, additions: 0, deletions: 0, binary: false }
}

/// The files of the first `n` changes by path; a later change of a path wins.
pub open spec fn changed_files(
    changes: Seq<ChangeModel>,
    n: nat,
) -> Map<Seq<char>, diff::FileModel>
    decreases n,
{
    if n == 0 {
        Map::empty()
    } else {
        let c = changes[n - 1];
        changed_files(changes, (n - 1) as nat).insert(c.path, uncounted(c.path, c.status))
    }
}

/// `files` with the churn of the first `n` entries; entries of other paths are
/// dropped.
pub open spec fn with_churn(
    files: Map<Seq<char>, diff::FileModel>,
    churn: Seq<ChurnModel>,
    n: nat,
) -> Map<Seq<char>, diff::FileModel>
    decreases n,
{
    if n == 0 {
        files
    } else {
        let before = with_churn(files, churn, (n - 1) as nat);
        let c = churn[n - 1];
        if before.contains_key(c.path) {
            before.insert(
                c.path,
                diff::FileModel {
                    additions: c.additions,
                    deletions: c.deletions,
                    binary: c.binary,
                    ..before[c.path]
                },
            )
        } else {
            before
        }
    }
}

/// `files` with the untracked paths of the first `n` lines; known paths keep what
/// is known of them, and blank lines name none.
pub open spec fn with_untracked(
    files: Map<Seq<char>, diff::FileModel>,
    lines: Seq<Seq<char>>,
    n: nat,
) -> Map<Seq<char>, diff::FileModel>
    decreases n,
{
    if n == 0 {
        files
    } else {
        let before = with_untracked(files, lines, (n - 1) as nat);
        let path = text::trimmed(lines[n - 1]);
        if path.len() == 0 || before.contains_key(path) {
            before
        } else {
            before.insert(path, uncounted(path, DiffStatus::Untracked))
        }
    }
}

/// The changed files by path, from the three queries. A query that failed adds
/// nothing.
pub open spec fn merged_files(
    name_status: Seq<char>,
    numstat: Option<Seq<char>>,
    untracked: Option<Seq<char>>,
) -> Map<Seq<char>, diff::FileModel> {
    let l0 = text::lines_of(name_status);
    let changes = changes_of(l0, l0.len());
    let m0 = changed_files(changes, changes.len());
    let m1 = match numstat {
        Some(t) => {
            let l1 = text::lines_of(t);
            let churn = churns_of(l1, l1.len());
            with_churn(m0, churn, churn.len())
        },
        None => m0,
    };
    match untracked {
        Some(t) => with_untracked(m1, text::lines_of(t), text::lines_of(t).len()),
        None => m1,
    }
}

/// `out` lists the files of `m` in the order of their paths.
pub open spec fn lists_files(
    out: Seq<diff::FileModel>,
    m: Map<Seq<char>, diff::FileModel>,
) -> bool {
    exists|keys: Seq<Seq<char>>|
        {
            &&& #[trigger] textmap::ascending(keys)
            &&& forall|k: Seq<char>| #![auto] m.contains_key(k) <==> keys.contains(k)
            &&& out == keys.map_values(|k: Seq<char>| m[k])
        }
}

/// What a map of files says.
pub open spec fn file_models(files: Map<Seq<char>, DiffFile>) -> Map<Seq<char>, diff::FileModel> {
    files.map_values(|f: DiffFile| f.deep_view())
}

proof fn lemma_file_models_insert(files: Map<Seq<char>, DiffFile>, k: Seq<char>, f: DiffFile)
    ensures
        file_models(files.insert(k, f)) == file_models(files).insert(k, f.deep_view()),
{
    assert(file_models(files.insert(k, f)) =~= file_models(files).insert(k, f.deep_view()));
}

fn add_changes(files: &mut TextMap<DiffFile>, changes: &Vec<DiffNameStatusEntry>)
    requires
        old(files)@ == Map::<Seq<char>, DiffFile>::empty(),
    ensures
        file_models(final(files)@) == changed_files(changes.deep_view(), changes@.len()),
{
    let ghost all = changes.deep_view();
    let mut i: usize = 0;
    assert(file_models(files@) =~= changed_files(all, 0));
    while i < changes.len()
        invariant
            i <= changes@.len(),
            all == changes.deep_view(),
            file_models(files@) == changed_files(all, i as nat),
        decreases changes@.len() - i,
    {
        let c = &changes[i];
        assert(all[i as int] == c.deep_view());
        let file = DiffFile {
            path: c.path.clone(),
            status: c.status,
            additions: 0,
            deletions: 0,
            binary: false,
        };
        proof {
            lemma_file_models_insert(files@, c.path@, file);
        }
        files.insert(c.path.clone(), file);
        i += 1;
    }
}

fn add_churn(files: &mut TextMap<DiffFile>, churn: &Vec<NumstatEntry>)
    ensures
        file_models(final(files)@) == with_churn(
            file_models(old(files)@),
            churn.deep_view(),
            churn@.len(),
        ),
{
    let ghost all = churn.deep_view();
    let ghost start = file_models(files@);
    let mut i: usize = 0;
    while i < churn.len()
        invariant
            i <= churn@.len(),
            all == churn.deep_view(),
            file_models(files@) == with_churn(start, all, i as nat),
        decreases churn@.len() - i,
    {
        let c = &churn[i];
        assert(all[i as int] == c.deep_view());
        let known = match files.get(c.path.as_str()) {
            Some(f) => Some(
                DiffFile {
                    path: f.path.clone(),
                    status: f.status,
                    additions: c.additions,
                    deletions: c.deletions,
                    binary: c.binary,
                },
            ),
            None => None,
        };
        if let Some(file) = known {
            proof {
                lemma_file_models_insert(files@, c.path@, file);
            }
            files.insert(c.path.clone(), file);
        }
        i += 1;
    }
}

fn add_untracked(files: &mut TextMap<DiffFile>, paths: &Vec<String>)
    ensures
        file_models(final(files)@) == with_untracked(
            file_models(old(files)@),
            paths.deep_view(),
            paths@.len(),
        ),
{
    let ghost all = paths.deep_view();
    let ghost start = file_models(files@);
    let mut i: usize = 0;
    while i < paths.len()
        invariant
            i <= paths@.len(),
            all == paths.deep_view(),
            file_models(files@) == with_untracked(start, all, i as nat),
        decreases paths@.len() - i,
    {
        assert(all[i as int] == paths@[i as int]@);
        let path = trim(paths[i].as_str());
        if !path.as_str().is_empty() && !files.contains_key(path.as_str()) {
            let file = DiffFile {
                path: path.clone(),
                status: DiffStatus::Untracked,
                additions: 0,
                deletions: 0,
                binary: false,
            };
            proof {
                lemma_file_models_insert(files@, path@, file);
            }
            files.insert(path, file);
        }
        i += 1;
    }
}

/// The changed files, sorted by path, from the outputs of `git diff
/// --name-status`, `git diff --numstat` and `git ls-files --others`. The latter two
/// are absent when they failed.
pub fn merge_diff_files(
    name_status: &str,
    numstat: Option<&str>,
    untracked: Option<&str>,
) -> (res: Vec<DiffFile>)
    ensures
        lists_files(
            res.deep_view(),
            merged_files(name_status@, numstat.deep_view(), untracked.deep_view()),
        ),
{
    let mut files: TextMap<DiffFile> = TextMap::new();
    let changes = parse_diff_name_status(name_status);
    assert(changes@.len() == changes.deep_view().len());
    add_changes(&mut files, &changes);
    if let Some(t) = numstat {
        let churn = parse_numstat(t);
        assert(churn@.len() == churn.deep_view().len());
        add_churn(&mut files, &churn);
    }
    if let Some(t) = untracked {
        let paths = lines(t);
        assert(paths@.len() == paths.deep_view().len());
        add_untracked(&mut files, &paths);
    }
    let ghost m = merged_files(name_status@, numstat.deep_view(), untracked.deep_view());
    assert(file_models(files@) == m);
    let n: usize = files.len();
    let ghost keys = files.keys();
    let mut out: Vec<DiffFile> = Vec::new();
    let mut i: usize = 0;
    while i < n
        invariant
            n == files.keys().len(),
            i <= n,
            keys == files.keys(),
            file_models(files@) == m,
            out.deep_view() == keys.take(i as int).map_values(|k: Seq<char>| m[k]),
        decreases n - i,
    {
        let ghost before = out.deep_view();
        let file = files.value_at(i).clone();
        out.push(file);
        assert(m[keys[i as int]] == file.deep_view());
        assert(out.deep_view() =~= before.push(m[keys[i as int]]));
        assert(keys.take(i + 1).map_values(|k: Seq<char>| m[k]) =~= before.push(
            m[keys[i as int]],
        ));
        i += 1;
    }
    assert(keys.take(i as int) =~= keys);
    assert forall|k: Seq<char>| #![auto] m.contains_key(k) <==> keys.contains(k) by {
        assert(m.contains_key(k) <==> files@.contains_key(k));
    }
    assert(textmap::ascending(keys));
    out
}

/// No path is listed twice, and the paths ascend.
pub proof fn law_listed_paths_ascend(
    out: Seq<diff::FileModel>,
    m: Map<Seq<char>, diff::FileModel>,
    i: int,
    j: int,
)
    requires
        lists_files(out, m),
        forall|k: Seq<char>| #[trigger] m.contains_key(k) ==> m[k].path == k,
        0 <= i < j < out.len(),
    ensures
        text::text_lt(out[i].path, out[j].path),
{
    let keys = choose|keys: Seq<Seq<char>>|
        {
            &&& #[trigger] textmap::ascending(keys)
            &&& forall|k: Seq<char>| #![auto] m.contains_key(k) <==> keys.contains(k)
            &&& out == keys.map_values(|k: Seq<char>| m[k])
        };
    assert(keys.contains(keys[i]) && keys.contains(keys[j]));
    assert(m.contains_key(keys[i]) && m.contains_key(keys[j]));
}

/// Every merged file stands under its own path, so a path is listed once.
pub proof fn law_merged_files_go_by_path(
    name_status: Seq<char>,
    numstat: Option<Seq<char>>,
    untracked: Option<Seq<char>>,
    k: Seq<char>,
)
    requires
        merged_files(name_status, numstat, untracked).contains_key(k),
    ensures
        merged_files(name_status, numstat, untracked)[k].path == k,
{
    let l0 = text::lines_of(name_status);
    let changes = changes_of(l0, l0.len());
    lemma_changed_by_path(changes, changes.len());
    let m0 = changed_files(changes, changes.len());
    let m1 = match numstat {
        Some(t) => {
            let l1 = text::lines_of(t);
            let churn = churns_of(l1, l1.len());
            with_churn(m0, churn, churn.len())
        },
        None => m0,
    };
    if let Some(t) = numstat {
        let l1 = text::lines_of(t);
        let churn = churns_of(l1, l1.len());
        lemma_churn_by_path(m0, churn, churn.len());
    }
    if let Some(t) = untracked {
        lemma_untracked_by_path(m1, text::lines_of(t), text::lines_of(t).len());
    }
}

/// Whether every file of `m` stands under its own path.
pub open spec fn by_path(m: Map<Seq<char>, diff::FileModel>) -> bool {
    forall|k: Seq<char>| #[trigger] m.contains_key(k) ==> m[k].path == k
}

proof fn lemma_changed_by_path(changes: Seq<ChangeModel>, n: nat)
    ensures
        by_path(changed_files(changes, n)),
    decreases n,
{
    if n > 0 {
        lemma_changed_by_path(changes, (n - 1) as nat);
    }
}

proof fn lemma_churn_by_path(m: Map<Seq<char>, diff::FileModel>, churn: Seq<ChurnModel>, n: nat)
    requires
        by_path(m),
    ensures
        by_path(with_churn(m, churn, n)),
    decreases n,
{
    if n > 0 {
        lemma_churn_by_path(m, churn, (n - 1) as nat);
    }
}

proof fn lemma_untracked_by_path(m: Map<Seq<char>, diff::FileModel>, lines: Seq<Seq<char>>, n: nat)
    requires
        by_path(m),
    ensures
        by_path(with_untracked(m, lines, n)),
    decreases n,
{
    if n > 0 {
        lemma_untracked_by_path(m, lines, (n - 1) as nat);
    }
}

// ---------------------------------------------------------------------------
// Diff bodies
// ---------------------------------------------------------------------------
/// The old and the new start line that a hunk header names: two fields behind
/// `@@`, the first after `-`, the second after `+`, each up to a comma.
pub open spec fn hunk_starts(line: Seq<char>) -> Option<(u32, u32)> {
    if !"@@"@.is_prefix_of(line) {
        None
    } else {
        let fields = text::words_of(line.skip("@@"@.len() as int));
        if fields.len() < 2 {
            None
        } else {
            match (start_of(fields[0], '-'), start_of(fields[1], '+')) {
                (Some(o), Some(n)) => Some((o, n)),
                _ => None,
            }
        }
    }
}

/// The number between `sign` and the first comma of a field.
pub open spec fn start_of(field: Seq<char>, sign: char) -> Option<u32> {
    if field.len() == 0 || field[0] != sign {
        None
    } else {
        match text::unsigned_value(text::pieces(field.drop_first(), ',')[0], u32::MAX as nat) {
            Some(n) => Some(n as u32),
            None => None,
        }
    }
}

fn parse_start(field: &str, sign: char) -> (res: Option<u32>)
    ensures
        res == start_of(field@, sign),
{
    let chars = text::to_chars(field);
    if chars.len() == 0 || chars[0] != sign {
        return None;
    }
    let rest = suffix(field, 1);
    assert(rest@ =~= field@.drop_first());
    let parts = split(rest.as_str(), ',');
    assert(parts.deep_view()[0] == parts@[0]@);
    text::parse_u32(parts[0].as_str())
}

/// The old and the new start line that a hunk header names; none for anything
/// else.
pub fn parse_hunk_header(line: &str) -> (res: Option<(u32, u32)>)
    ensures
        res == hunk_starts(line@),
{
    let after = match text::strip_prefix(line, "@@") {
        Some(s) => s,
        None => return None,
    };
    let fields = split_whitespace(after.as_str());
    let ghost all = fields.deep_view();
    if fields.len() < 2 {
        return None;
    }
    assert(all[0] == fields@[0]@ && all[1] == fields@[1]@);
    let old_start: u32 = match parse_start(fields[0].as_str(), '-') {
        Some(n) => n,
        None => return None,
    };
    let new_start: u32 = match parse_start(fields[1].as_str(), '+') {
        Some(n) => n,
        None => return None,
    };
    Some((old_start, new_start))
}

/// The next line number; the last one repeats.
pub open spec fn next_lineno(n: u32) -> u32 {
    if n == u32::MAX {
        n
    } else {
        (n + 1) as u32
    }
}

/// Line counters of both sides.
pub ghost struct Counters {
    pub old_no: u32,
    pub new_no: u32,
}

impl Counters {
    /// The counters behind `line`: a hunk header sets them, removed and context
    /// lines advance the old side, added and context lines the new side.
    pub open spec fn after(self, line: Seq<char>) -> Counters {
        match diff::kind_of(line) {
            DiffLineKind::Hunk => match hunk_starts(line) {
                Some((o, n)) => Counters { old_no: o, new_no: n },
                None => self,
            },
            DiffLineKind::Header => self,
            DiffLineKind::Added => Counters { new_no: next_lineno(self.new_no), ..self },
            DiffLineKind::Removed => Counters { old_no: next_lineno(self.old_no), ..self },
            DiffLineKind::Context => Counters {
                old_no: next_lineno(self.old_no),
                new_no: next_lineno(self.new_no),
            },
        }
    }

    /// `line` with the numbers that the counters give it.
    pub open spec fn number(self, line: Seq<char>) -> diff::LineModel {
        let kind = diff::kind_of(line);
        diff::LineModel {
            kind,
            text: line,
            old_lineno: if kind == DiffLineKind::Removed || kind == DiffLineKind::Context {
                Some(self.old_no)
            } else {
                None
            },
            new_lineno: if kind == DiffLineKind::Added || kind == DiffLineKind::Context {
                Some(self.new_no)
            } else {
                None
            },
        }
    }
}

/// The counters behind the first `n` lines of a diff.
pub open spec fn counters_after(lines: Seq<Seq<char>>, n: nat) -> Counters
    decreases n,
{
    if n == 0 {
        Counters { old_no: 0, new_no: 0 }
    } else {
        counters_after(lines, (n - 1) as nat).after(lines[n - 1])
    }
}

/// The numbered lines of a diff body.
pub open spec fn numbered_lines(lines: Seq<Seq<char>>) -> Seq<diff::LineModel> {
    Seq::new(lines.len(), |i: int| counters_after(lines, i as nat).number(lines[i]))
}

/// The lines of a unified diff with their kinds and line numbers. Hunk headers set
/// the numbers that the lines behind them count on from.
pub fn enrich_diff_lines(body: &str) -> (res: Vec<DiffLine>)
    ensures
        res.deep_view() == numbered_lines(text::lines_of(body@)),
{
    let all = lines(body);
    let ghost models = all.deep_view();
    let mut out: Vec<DiffLine> = Vec::new();
    let mut old_no: u32 = 0;
    let mut new_no: u32 = 0;
    let mut i: usize = 0;
    while i < all.len()
        invariant
            i <= all@.len(),
            models == all.deep_view(),
            models == text::lines_of(body@),
            counters_after(models, i as nat) == (Counters { old_no, new_no }),
            out.deep_view() == numbered_lines(models).take(i as int),
        decreases all@.len() - i,
    {
        let raw = &all[i];
        assert(models[i as int] == raw@);
        let ghost before = out.deep_view();
        let kind = DiffLineKind::classify(raw.as_str());
        let line = match kind {
            DiffLineKind::Hunk => {
                if let Some((o, n)) = parse_hunk_header(raw.as_str()) {
                    old_no = o;
                    new_no = n;
                }
                DiffLine { kind, text: raw.clone(), old_lineno: None, new_lineno: None }
            },
            DiffLineKind::Header => DiffLine {
                kind,
                text: raw.clone(),
                old_lineno: None,
                new_lineno: None,
            },
            DiffLineKind::Added => {
                let line = DiffLine {
                    kind,
                    text: raw.clone(),
                    old_lineno: None,
                    new_lineno: Some(new_no),
                };
                new_no = new_no.saturating_add(1);
                line
            },
            DiffLineKind::Removed => {
                let line = DiffLine {
                    kind,
                    text: raw.clone(),
                    old_lineno: Some(old_no),
                    new_lineno: None,
                };
                old_no = old_no.saturating_add(1);
                line
            },
            DiffLineKind::Context => {
                let line = DiffLine {
                    kind,
                    text: raw.clone(),
                    old_lineno: Some(old_no),
                    new_lineno: Some(new_no),
                };
                old_no = old_no.saturating_add(1);
                new_no = new_no.saturating_add(1);
                line
            },
        };
        out.push(line);
        assert(line.deep_view() == numbered_lines(models)[i as int]);
        assert(out.deep_view() =~= before.push(line.deep_view()));
        assert(numbered_lines(models).take(i + 1) =~= before.push(line.deep_view()));
        i += 1;
    }
    assert(numbered_lines(models).take(i as int) =~= numbered_lines(models));
    out
}

/// Within a hunk the numbers of each side count on: a line right behind another has
/// the next number of each side that both of them have.
pub proof fn law_line_numbers_count_on(lines: Seq<Seq<char>>, i: int)
    requires
        0 <= i < lines.len() - 1,
    ensures
        ({
            let line = numbered_lines(lines)[i];
            let next = numbered_lines(lines)[i + 1];
            &&& line.new_lineno is Some && next.new_lineno is Some ==> next.new_lineno->0
                == next_lineno(line.new_lineno->0)
            &&& line.old_lineno is Some && next.old_lineno is Some ==> next.old_lineno->0
                == next_lineno(line.old_lineno->0)
        }),
{
    assert(counters_after(lines, (i + 1) as nat) == counters_after(lines, i as nat).after(lines[i]));
}

/// A hunk header sets the numbers of the line behind it.
pub proof fn law_hunk_headers_set_the_numbers(lines: Seq<Seq<char>>, i: int)
    requires
        0 <= i < lines.len() - 1,
        numbered_lines(lines)[i].kind == DiffLineKind::Hunk,
        hunk_starts(lines[i]) is Some,
    ensures
        ({
            let next = numbered_lines(lines)[i + 1];
            let (old_start, new_start) = hunk_starts(lines[i])->0;
            &&& next.old_lineno is Some ==> next.old_lineno->0 == old_start
            &&& next.new_lineno is Some ==> next.new_lineno->0 == new_start
        }),
{
    assert(counters_after(lines, (i + 1) as nat) == counters_after(lines, i as nat).after(lines[i]));
}

/// The code that a diff line shows, without its marker; none for hunk and file
/// headers.
pub open spec fn inner_text(line: diff::LineModel) -> Option<Seq<char>> {
    match line.kind {
        DiffLineKind::Hunk | DiffLineKind::Header => None,
        DiffLineKind::Added | DiffLineKind::Removed => Some(
            if line.text.len() > 0 {
                line.text.drop_first()
            } else {
                line.text
            },
        ),
        DiffLineKind::Context => Some(
            if line.text.len() > 0 && line.text[0] == ' ' {
                line.text.drop_first()
            } else {
                line.text
            },
        ),
    }
}

/// The code that a diff line shows, for syntax highlighting.
pub fn highlight_text(line: &DiffLine) -> (res: Option<String>)
    ensures
        res.deep_view() == inner_text(line.deep_view()),
{
    let chars = text::to_chars(line.text.as_str());
    match line.kind {
        DiffLineKind::Hunk => None,
        DiffLineKind::Header => None,
        DiffLineKind::Added | DiffLineKind::Removed => if chars.len() > 0 {
            let rest = suffix(line.text.as_str(), 1);
            assert(rest@ =~= line.text@.drop_first());
            Some(rest)
        } else {
            Some(line.text.clone())
        },
        DiffLineKind::Context => if chars.len() > 0 && chars[0] == ' ' {
            let rest = suffix(line.text.as_str(), 1);
            assert(rest@ =~= line.text@.drop_first());
            Some(rest)
        } else {
            Some(line.text.clone())
        },
    }
}

/// Line `i` of a file shown as wholly added.
pub open spec fn untracked_line(lines: Seq<Seq<char>>, i: int) -> diff::LineModel {
    diff::LineModel {
        kind: DiffLineKind::Added,
        text: "+"@ + lines[i],
        old_lineno: None,
        new_lineno: Some(
            if i + 1 <= u32::MAX {
                (i + 1) as u32
            } else {
                u32::MAX
            },
        ),
    }
}

/// An untracked file as a diff: a header, then every line as added.
pub open spec fn untracked_lines(path: Seq<char>, body: Seq<char>) -> Seq<diff::LineModel> {
    let lines = text::lines_of(body);
    seq![
        diff::LineModel {
            kind: DiffLineKind::Header,
            text: "untracked file: "@ + path,
            old_lineno: None,
            new_lineno: None,
        },
    ] + Seq::new(lines.len(), |i: int| untracked_line(lines, i))
}

/// An untracked file as a diff.
pub fn untracked_as_diff(path: &str, body: &str) -> (res: Vec<DiffLine>)
    ensures
        res.deep_view() == untracked_lines(path@, body@),
{
    let all = lines(body);
    let ghost models = all.deep_view();
    let ghost want = untracked_lines(path@, body@);
    let mut out: Vec<DiffLine> = Vec::new();
    out.push(
        DiffLine {
            kind: DiffLineKind::Header,
            text: concat("untracked file: ", path),
            old_lineno: None,
            new_lineno: None,
        },
    );
    assert(out.deep_view() =~= want.take(1));
    let mut new_no: u32 = 1;
    let mut i: usize = 0;
    while i < all.len()
        invariant
            i <= all@.len(),
            models == all.deep_view(),
            models == text::lines_of(body@),
            want == untracked_lines(path@, body@),
            want.len() == models.len() + 1,
            new_no == if i + 1 <= u32::MAX {
                i + 1
            } else {
                u32::MAX as int
            },
            out.deep_view() == want.take(i + 1),
        decreases all@.len() - i,
    {
        assert(models[i as int] == all@[i as int]@);
        let ghost before = out.deep_view();
        let line = DiffLine {
            kind: DiffLineKind::Added,
            text: concat("+", all[i].as_str()),
            old_lineno: None,
            new_lineno: Some(new_no),
        };
        out.push(line);
        assert(want[i + 1] == untracked_line(models, i as int));
        assert(line.deep_view() == want[i + 1]);
        assert(out.deep_view() =~= before.push(want[i + 1]));
        assert(want.take(i + 2) =~= before.push(want[i + 1]));
        new_no = new_no.saturating_add(1);
        i += 1;
    }
    assert(want.take(i + 1) =~= want);
    out
}

/// The branch that `git rev-parse --abbrev-ref HEAD` printed; none when detached.
pub open spec fn branch_of(stdout: Seq<char>) -> Option<Seq<char>> {
    let s = text::trimmed(stdout);
    if s.len() == 0 || s == "HEAD"@ {
        None
    } else {
        Some(s)
    }
}

/// The branch that `git rev-parse --abbrev-ref HEAD` printed; none when detached.
pub fn parse_branch(stdout: &str) -> (res: Option<String>)
    ensures
        res.deep_view() == branch_of(stdout@),
{
    let s = trim(stdout);
    if s.as_str().is_empty() || *s.as_str() == *"HEAD" {
        None
    } else {
        Some(s)
    }
}

/// A window reads back from the line that tmux prints for it: number, name and
/// directory between tabs, the directory left out where it is empty.
pub proof fn law_printed_windows_read_back(index: u32, name: Seq<char>, cwd: Seq<char>)
    requires
        !name.contains('\t'),
    ensures
        ({
            let line = text::digits(index as nat) + seq!['\t'] + name + seq!['\t'] + cwd;
            let w = window_of_line(line);
            &&& w is Some && w->0.index == index && w->0.name == name
            &&& cwd.len() > 0 ==> w->0.cwd == Some(cwd)
            &&& cwd.len() == 0 ==> w->0.cwd is None
        }),
{
    let d = text::digits(index as nat);
    let tail = name + seq!['\t'] + cwd;
    text::law_unsigned_numbers_read_back(index as nat, u32::MAX as nat);
    assert(!d.contains('\t'));
    assert(d + seq!['\t'] + name + seq!['\t'] + cwd =~= d + seq!['\t'] + tail);
    text::law_texts_are_cut_at_the_first_separators(d, tail, '\t', 3);
    text::law_texts_are_cut_at_the_first_separators(name, cwd, '\t', 2);
}

/// Every line that describes a window counts, in order.
pub proof fn law_every_window_is_listed(lines: Seq<Seq<char>>, n: nat)
    requires
        n <= lines.len(),
    ensures
        lists::selects(
            windows_of(lines, n),
            |i: int| window_of_line(lines[i])->0,
            |i: int| window_of_line(lines[i]) is Some,
            n,
        ),
    decreases n,
{
    let value = |i: int| window_of_line(lines[i])->0;
    let keep = |i: int| window_of_line(lines[i]) is Some;
    if n == 0 {
        lists::lemma_selects_none(value, keep);
    } else {
        let m = (n - 1) as nat;
        law_every_window_is_listed(lines, m);
        lists::lemma_selects_next(windows_of(lines, m), value, keep, m);
    }
}

/// The trunk is the configured branch, else the remote's, else the first of `main`,
/// `master`, `develop` and `trunk` that exists.
pub proof fn law_where_the_trunk_comes_from(
    configured: Option<Seq<char>>,
    remote: Option<Seq<char>>,
    present: Seq<bool>,
)
    requires
        present.len() == 4,
    ensures
        ({
            let trunk = trunk_of(configured, remote, present);
            let open = configured is None && remote is None;
            &&& configured is Some ==> trunk == configured
            &&& configured is None && remote is Some ==> trunk == remote
            &&& open && present[0] ==> trunk == Some("main"@)
            &&& open && !present[0] && present[1] ==> trunk == Some("master"@)
            &&& open && !present[0] && !present[1] && present[2] ==> trunk == Some("develop"@)
            &&& open && !present[0] && !present[1] && !present[2] && present[3] ==> trunk == Some(
                "trunk"@,
            )
            &&& open && !present[0] && !present[1] && !present[2] && !present[3] ==> trunk is None
        }),
{
    reveal_with_fuel(first_present, 5);
}

/// Where nothing stands between the parts of a renamed path, their slashes are one;
/// else the path is the three of them.
pub proof fn law_paths_are_made_of_their_parts(
    pre: Seq<char>,
    mid: Seq<char>,
    post: Seq<char>,
)
    ensures
        mid.len() > 0 ==> path_of_parts(pre, mid, post) == pre + mid + post,
        post.len() == 0 ==> path_of_parts(pre, mid, post) == pre + mid,
        path_of_parts(pre, Seq::empty(), seq!['/'] + post) == pre + post,
{
    if post.len() == 0 {
        assert(pre + mid + post =~= pre + mid);
    }
    assert((seq!['/'] + post).skip(1) =~= post);
}

/// A plain path and its counts read back from the line that git prints for them; a
/// binary file is printed with dashes and counts nothing.
pub proof fn law_printed_counts_read_back(additions: nat, deletions: nat, path: Seq<char>)
    requires
        additions <= usize::MAX,
        deletions <= usize::MAX,
        path.len() > 0,
        text::trimmed(path) == path,
        text::find_from(path, " => "@, 0) is None,
    ensures
        ({
            let tab = seq!['\t'];
            let line = text::digits(additions) + tab + text::digits(deletions) + tab + path;
            let dashes = seq!['-'] + tab + seq!['-'] + tab + path;
            &&& churn_of_line(line) == Some(
                ChurnModel { path, additions, deletions, binary: false },
            )
            &&& churn_of_line(dashes) == Some(
                ChurnModel { path, additions: 0, deletions: 0, binary: true },
            )
        }),
{
    reveal_strlit("-");
    let tab = seq!['\t'];
    let (a, d) = (text::digits(additions), text::digits(deletions));
    text::law_unsigned_numbers_read_back(additions, usize::MAX as nat);
    text::law_unsigned_numbers_read_back(deletions, usize::MAX as nat);
    assert(!a.contains('\t') && !d.contains('\t'));
    assert(a[0] != '-');
    assert(a != "-"@);
    text::law_texts_are_cut_at_the_first_separators(a, d + tab + path, '\t', 3);
    text::law_texts_are_cut_at_the_first_separators(d, path, '\t', 2);
    assert(a + tab + d + tab + path =~= a + tab + (d + tab + path));
    let dash = seq!['-'];
    assert(dash =~= "-"@);
    assert(!dash.contains('\t'));
    text::law_texts_are_cut_at_the_first_separators(dash, dash + tab + path, '\t', 3);
    text::law_texts_are_cut_at_the_first_separators(dash, path, '\t', 2);
    assert(dash + tab + dash + tab + path =~= dash + tab + (dash + tab + path));
}

/// Every line that describes counts is taken, in order.
pub proof fn law_every_count_is_taken(lines: Seq<Seq<char>>, n: nat)
    requires
        n <= lines.len(),
    ensures
        lists::selects(
            churns_of(lines, n),
            |i: int| churn_of_line(lines[i])->0,
            |i: int| churn_of_line(lines[i]) is Some,
            n,
        ),
    decreases n,
{
    let value = |i: int| churn_of_line(lines[i])->0;
    let keep = |i: int| churn_of_line(lines[i]) is Some;
    if n == 0 {
        lists::lemma_selects_none(value, keep);
    } else {
        let m = (n - 1) as nat;
        law_every_count_is_taken(lines, m);
        lists::lemma_selects_next(churns_of(lines, m), value, keep, m);
    }
}

/// A change reads back from the line that git prints for it: the letter of its status,
/// what follows the letter, and the path; of two paths the second.
pub proof fn law_printed_changes_read_back(
    letter: char,
    score: Seq<char>,
    first: Seq<char>,
    second: Seq<char>,
)
    requires
        letter != '\t',
        !score.contains('\t') && !first.contains('\t') && !second.contains('\t'),
        first.len() > 0 && second.len() > 0,
    ensures
        ({
            let field = seq![letter] + score;
            let tab = seq!['\t'];
            let status = if letter == 'A' {
                DiffStatus::Added
            } else if letter == 'D' {
                DiffStatus::Deleted
            } else if letter == 'M' {
                DiffStatus::Modified
            } else if letter == 'R' {
                DiffStatus::Renamed
            } else {
                DiffStatus::Other
            };
            &&& change_of_line(field + tab + first) == Some(ChangeModel { path: first, status })
            &&& change_of_line(field + tab + first + tab + second) == Some(
                ChangeModel { path: second, status },
            )
        }),
{
    let field = seq![letter] + score;
    let tab = seq!['\t'];
    assert(!field.contains('\t')) by {
        if field.contains('\t') {
            let i = field.index_of('\t');
            if i > 0 {
                assert(score[i - 1] == '\t');
            }
        }
    }
    text::law_texts_are_cut_at_the_first_separators(field, first, '\t', 1);
    text::law_texts_are_cut_at_the_first_separators(first, second, '\t', 1);
    text::law_texts_are_cut_at_the_first_separators(second, second, '\t', 1);
    text::law_texts_are_cut_at_the_first_separators(field, first + tab + second, '\t', 1);
    assert(field + tab + first + tab + second =~= field + tab + (first + tab + second));
}

/// Every line that describes a change is taken, in order.
pub proof fn law_every_change_is_taken(lines: Seq<Seq<char>>, n: nat)
    requires
        n <= lines.len(),
    ensures
        lists::selects(
            changes_of(lines, n),
            |i: int| change_of_line(lines[i])->0,
            |i: int| change_of_line(lines[i]) is Some,
            n,
        ),
    decreases n,
{
    let value = |i: int| change_of_line(lines[i])->0;
    let keep = |i: int| change_of_line(lines[i]) is Some;
    if n == 0 {
        lists::lemma_selects_none(value, keep);
    } else {
        let m = (n - 1) as nat;
        law_every_change_is_taken(lines, m);
        lists::lemma_selects_next(changes_of(lines, m), value, keep, m);
    }
}

/// A file reads back from its line in the short status: two columns, a space and the
/// path, or two paths around an arrow of which the second counts.
pub proof fn law_printed_status_reads_back(x: char, y: char, path: Seq<char>, to: Seq<char>)
    requires
        (x as u32) < 0x80 && (y as u32) < 0x80,
        path.len() > 0,
        !path.contains('>'),
    ensures
        ({
            let columns = seq![x, y, ' '];
            let plain = file_of_status_line(columns + path);
            let renamed = file_of_status_line(columns + path + " -> "@ + to);
            let status = if x == '?' && y == '?' {
                DiffStatus::Untracked
            } else if x == 'A' || y == 'A' {
                DiffStatus::Added
            } else if x == 'D' || y == 'D' {
                DiffStatus::Deleted
            } else if x == 'R' || y == 'R' {
                DiffStatus::Renamed
            } else if x == 'M' || y == 'M' {
                DiffStatus::Modified
            } else {
                DiffStatus::Other
            };
            &&& plain is Some && plain->0.path == path && plain->0.status == status
            &&& renamed is Some && renamed->0.path == to && renamed->0.status == status
        }),
{
    reveal_strlit(" -> ");
    let columns = seq![x, y, ' '];
    let arrow = " -> "@;
    lemma_status_line(x, y, path);
    let both = path + arrow + to;
    lemma_status_line(x, y, both);
    assert(columns + path + arrow + to =~= columns + both);
    text::law_the_first_place_is_found(path, arrow);
    if let Some(i) = text::find_from(path, arrow, 0) {
        assert(path.subrange(i, i + 4)[2] == '>');
        assert(path[i + 2] == '>');
    }
    let place = path.len() as int;
    assert(both.subrange(place, place + 4) =~= arrow);
    assert forall|k: int| 0 <= k < place implies !text::occurs_at(both, arrow, k) by {
        if text::occurs_at(both, arrow, k) {
            assert(both.subrange(k, k + 4)[2] == '>' && both.subrange(k, k + 4)[0] == ' ');
            assert(both[k + 2] == '>' && both[k] == ' ');
            if k + 2 < place {
                assert(path[k + 2] == '>');
            } else {
                assert(both[place] == ' ' && both[place + 1] == '-');
            }
        }
    }
    lemma_found(both, arrow, 0, place);
    assert(both.skip(place + 4) =~= to);
}

proof fn lemma_status_line(x: char, y: char, rest: Seq<char>)
    requires
        (x as u32) < 0x80 && (y as u32) < 0x80,
        rest.len() > 0,
    ensures
        ({
            let line = seq![x, y, ' '] + rest;
            &&& text::utf8_len(line) >= 4
            &&& status_columns(line) == Some(3nat)
            &&& line.skip(3) == rest
        }),
{
    let line = seq![x, y, ' '] + rest;
    let tail = rest.drop_first();
    text::lemma_utf8_len_ascii(x);
    text::lemma_utf8_len_ascii(y);
    text::lemma_utf8_len_ascii(' ');
    text::lemma_utf8_len_char(rest[0]);
    text::lemma_utf8_len_concat(seq![x], seq![y]);
    text::lemma_utf8_len_concat(seq![x] + seq![y], seq![' ']);
    text::lemma_utf8_len_concat(seq![x] + seq![y] + seq![' '], seq![rest[0]]);
    text::lemma_utf8_len_concat(seq![x] + seq![y] + seq![' '] + seq![rest[0]], tail);
    assert(line =~= seq![x] + seq![y] + seq![' '] + seq![rest[0]] + tail);
    assert(line.skip(3) =~= rest);
    assert(line[0] == x && line[1] == y && line[2] == ' ');
}

/// Every line of the short status that describes a file is taken, in order.
pub proof fn law_every_status_line_is_taken(lines: Seq<Seq<char>>, n: nat)
    requires
        n <= lines.len(),
    ensures
        lists::selects(
            status_files(lines, n),
            |i: int| file_of_status_line(lines[i])->0,
            |i: int| file_of_status_line(lines[i]) is Some,
            n,
        ),
    decreases n,
{
    let value = |i: int| file_of_status_line(lines[i])->0;
    let keep = |i: int| file_of_status_line(lines[i]) is Some;
    if n == 0 {
        lists::lemma_selects_none(value, keep);
    } else {
        let m = (n - 1) as nat;
        law_every_status_line_is_taken(lines, m);
        lists::lemma_selects_next(status_files(lines, m), value, keep, m);
    }
}

/// Every changed path has a file, with the status of its last change; no other path
/// has.
pub proof fn law_changed_paths_have_their_last_status(
    changes: Seq<ChangeModel>,
    n: nat,
    i: int,
    path: Seq<char>,
)
    requires
        n <= changes.len(),
        0 <= i < n,
        forall|j: int| i < j < n ==> (#[trigger] changes[j]).path != changes[i].path,
    ensures
        ({
            let files = changed_files(changes, n);
            let file = files[changes[i].path];
            &&& files.contains_key(changes[i].path)
            &&& file.path == changes[i].path && file.status == changes[i].status
            &&& file.additions == 0 && file.deletions == 0 && !file.binary
            &&& files.contains_key(path) ==> exists|j: int|
                0 <= j < n && (#[trigger] changes[j]).path == path
        }),
    decreases n,
{
    let m = (n - 1) as nat;
    lemma_only_changed_paths(changes, n, path);
    if i < m {
        law_changed_paths_have_their_last_status(changes, m, i, path);
        assert(changes[m as int].path != changes[i].path);
    } else {
        assert(i == m);
    }
}

proof fn lemma_only_changed_paths(changes: Seq<ChangeModel>, n: nat, path: Seq<char>)
    requires
        n <= changes.len(),
    ensures
        changed_files(changes, n).contains_key(path) ==> exists|j: int|
            0 <= j < n && (#[trigger] changes[j]).path == path,
    decreases n,
{
    if n > 0 {
        lemma_only_changed_paths(changes, (n - 1) as nat, path);
        if changes[n - 1].path == path {
            assert(changes[n - 1].path == path);
        }
    }
}

/// A known file gets the counts of its last entry and keeps path and status; entries of
/// other paths add no file.
pub proof fn law_known_files_get_their_counts(
    files: Map<Seq<char>, diff::FileModel>,
    churn: Seq<ChurnModel>,
    n: nat,
    path: Seq<char>,
)
    requires
        n <= churn.len(),
    ensures
        ({
            let counted = with_churn(files, churn, n);
            let entry = |i: int| 0 <= i < n && churn[i].path == path;
            &&& counted.contains_key(path) <==> files.contains_key(path)
            &&& files.contains_key(path) ==> counted[path].path == files[path].path
                && counted[path].status == files[path].status
            &&& files.contains_key(path) && (forall|i: int| !#[trigger] entry(i)) ==> counted[path]
                == files[path]
            &&& forall|i: int|
                files.contains_key(path) && #[trigger] entry(i) && (forall|j: int|
                    i < j ==> !#[trigger] entry(j)) ==> counted[path].additions
                    == churn[i].additions && counted[path].deletions == churn[i].deletions
                    && counted[path].binary == churn[i].binary
        }),
    decreases n,
{
    if n > 0 {
        let m = (n - 1) as nat;
        law_known_files_get_their_counts(files, churn, m, path);
        let entry = |i: int| 0 <= i < n && churn[i].path == path;
        let before = |i: int| 0 <= i < m && churn[i].path == path;
        let counted = with_churn(files, churn, n);
        if files.contains_key(path) {
            if churn[m as int].path == path {
                assert(entry(m as int));
            }
            if forall|i: int| !#[trigger] entry(i) {
                assert forall|i: int| !#[trigger] before(i) by {
                    assert(!entry(i));
                }
            }
            assert forall|i: int| #[trigger] entry(i) && (forall|j: int|
                i < j ==> !#[trigger] entry(j)) implies counted[path].additions
                == churn[i].additions && counted[path].deletions == churn[i].deletions
                && counted[path].binary == churn[i].binary by {
                if i < m {
                    assert(!entry(m as int));
                    assert(before(i));
                    assert forall|j: int| i < j implies !#[trigger] before(j) by {
                        assert(!entry(j));
                    }
                }
            }
        }
    }
}

/// Every path that git does not follow has a file, and a file that is known stays as it
/// is; lines without anything but white space name none.
pub proof fn law_untracked_paths_are_added(
    files: Map<Seq<char>, diff::FileModel>,
    lines: Seq<Seq<char>>,
    n: nat,
    path: Seq<char>,
)
    requires
        n <= lines.len(),
    ensures
        ({
            let all = with_untracked(files, lines, n);
            let named = path.len() > 0 && exists|i: int|
                0 <= i < n && text::trimmed(#[trigger] lines[i]) == path;
            &&& all.contains_key(path) <==> files.contains_key(path) || named
            &&& files.contains_key(path) ==> all[path] == files[path]
            &&& !files.contains_key(path) && named ==> all[path].path == path && all[path].status
                == DiffStatus::Untracked && all[path].additions == 0 && all[path].deletions == 0
        }),
    decreases n,
{
    if n > 0 {
        let m = (n - 1) as nat;
        law_untracked_paths_are_added(files, lines, m, path);
        if path.len() > 0 && text::trimmed(lines[m as int]) == path {
            assert(0 <= m < n && text::trimmed(lines[m as int]) == path);
        }
        if exists|i: int| 0 <= i < n && text::trimmed(#[trigger] lines[i]) == path {
            let i = choose|i: int| 0 <= i < n && text::trimmed(#[trigger] lines[i]) == path;
            if i < m {
                assert(text::trimmed(lines[i]) == path);
            }
        }
    }
}

/// The changed files are made of all three queries: what changed, with its counts, and
/// what git does not follow. A query that failed leaves out its part alone.
pub proof fn law_all_three_queries_count(
    name_status: Seq<char>,
    numstat: Option<Seq<char>>,
    untracked: Option<Seq<char>>,
)
    ensures
        ({
            let l0 = text::lines_of(name_status);
            let changes = changes_of(l0, l0.len());
            let changed = changed_files(changes, changes.len());
            let l1 = text::lines_of(numstat->0);
            let churn = churns_of(l1, l1.len());
            let l2 = text::lines_of(untracked->0);
            let all = merged_files(name_status, numstat, untracked);
            let counted = with_churn(changed, churn, churn.len());
            &&& numstat is Some && untracked is Some ==> all == with_untracked(
                counted,
                l2,
                l2.len(),
            )
            &&& numstat is Some && untracked is None ==> all == counted
            &&& numstat is None && untracked is Some ==> all == with_untracked(
                changed,
                l2,
                l2.len(),
            )
            &&& numstat is None && untracked is None ==> all == changed
        }),
{
}

/// The start lines read back from the header that git prints for a hunk, whatever counts
/// stand behind them and whatever follows.
pub proof fn law_printed_hunk_headers_read_back(
    old_start: u32,
    old_count: Seq<char>,
    new_start: u32,
    new_count: Seq<char>,
    rest: Seq<char>,
)
    requires
        old_count.len() == 0 || old_count[0] == ',',
        new_count.len() == 0 || new_count[0] == ',',
        forall|i: int| 0 <= i < old_count.len() ==> !text::is_space(#[trigger] old_count[i]),
        forall|i: int| 0 <= i < new_count.len() ==> !text::is_space(#[trigger] new_count[i]),
    ensures
        hunk_starts(
            "@@ -"@ + text::digits(old_start as nat) + old_count + " +"@ + text::digits(
                new_start as nat,
            ) + new_count + " "@ + rest,
        ) == Some((old_start, new_start)),
{
    reveal_strlit("@@ -");
    reveal_strlit("@@");
    reveal_strlit(" +");
    reveal_strlit(" ");
    let (a, c) = (text::digits(old_start as nat), text::digits(new_start as nat));
    let line = "@@ -"@ + a + old_count + " +"@ + c + new_count + " "@ + rest;
    assert(line.take(2) =~= "@@"@);
    let f0 = seq!['-'] + a + old_count;
    let f1 = seq!['+'] + c + new_count;
    let tail = f1 + seq![' '] + rest;
    let body = f0 + seq![' '] + tail;
    assert(line.skip(2) =~= seq![' '] + body);
    lemma_start_field('-', old_start, old_count);
    lemma_start_field('+', new_start, new_count);
    text::law_words_end_at_white_space(f0, ' ', body);
    text::law_words_end_at_white_space(f0, ' ', tail);
    text::law_words_end_at_white_space(f1, ' ', rest);
    let fields = text::words_of(line.skip(2));
    assert(fields == seq![f0] + (seq![f1] + text::words_of(rest)));
    assert(fields[0] == f0 && fields[1] == f1);
}

proof fn lemma_start_field(sign: char, start: u32, count: Seq<char>)
    requires
        sign == '-' || sign == '+',
        count.len() == 0 || count[0] == ',',
        forall|i: int| 0 <= i < count.len() ==> !text::is_space(#[trigger] count[i]),
    ensures
        ({
            let f = seq![sign] + text::digits(start as nat) + count;
            &&& f.len() > 0
            &&& start_of(f, sign) == Some(start)
            &&& forall|i: int| 0 <= i < f.len() ==> !text::is_space(#[trigger] f[i])
        }),
{
    let d = text::digits(start as nat);
    let f = seq![sign] + d + count;
    text::law_unsigned_numbers_read_back(start as nat, u32::MAX as nat);
    assert(!d.contains(','));
    assert(f.drop_first() =~= d + count);
    if count.len() > 0 {
        let after = count.drop_first();
        text::law_texts_are_cut_at_the_first_separators(d, after, ',', 1);
        assert(d + count =~= d + seq![','] + after);
    } else {
        text::law_texts_are_cut_at_the_first_separators(d, d, ',', 1);
        assert(d + count =~= d);
    }
    assert forall|i: int| 0 <= i < f.len() implies !text::is_space(#[trigger] f[i]) by {
        if 0 < i <= d.len() {
            assert(f[i] == d[i - 1]);
        } else if i > d.len() {
            assert(f[i] == count[i - 1 - d.len()]);
        }
    }
}

/// Each side of a diff counts its own lines: what was removed and what stayed on the old
/// side, what was added and what stayed on the new one. A hunk header that names its
/// start lines sets both.
pub proof fn law_each_side_counts_its_lines(lines: Seq<Seq<char>>, i: nat)
    requires
        i < lines.len(),
        counters_after(lines, i).old_no < u32::MAX,
        counters_after(lines, i).new_no < u32::MAX,
    ensures
        ({
            let kind = diff::kind_of(lines[i as int]);
            let here = counters_after(lines, i);
            let next = counters_after(lines, i + 1);
            let line = numbered_lines(lines)[i as int];
            let stayed = kind == DiffLineKind::Context;
            let added = kind == DiffLineKind::Added;
            let removed = kind == DiffLineKind::Removed;
            let starts = hunk_starts(lines[i as int]);
            &&& line.text == lines[i as int] && line.kind == kind
            &&& line.old_lineno == if stayed || removed {
                Some(here.old_no)
            } else {
                None
            }
            &&& line.new_lineno == if stayed || added {
                Some(here.new_no)
            } else {
                None
            }
            &&& stayed || removed ==> next.old_no == here.old_no + 1
            &&& stayed || added ==> next.new_no == here.new_no + 1
            &&& added || kind == DiffLineKind::Header ==> next.old_no == here.old_no
            &&& removed || kind == DiffLineKind::Header ==> next.new_no == here.new_no
            &&& kind == DiffLineKind::Hunk ==> (starts matches Some((o, n)) ==> next.old_no == o
                && next.new_no == n)
            &&& numbered_lines(lines).len() == lines.len()
        }),
{
}

/// The code of a line is the line without its marker; a line of context that has none is
/// all code, and headers have no code.
pub proof fn law_code_stands_behind_the_marker(line: diff::LineModel)
    ensures
        ({
            let code = inner_text(line);
            let header = line.kind == DiffLineKind::Hunk || line.kind == DiffLineKind::Header;
            let stayed = line.kind == DiffLineKind::Context;
            &&& code is None <==> header
            &&& !header && !stayed && line.text.len() > 0 ==> seq![line.text[0]] + code->0
                == line.text
            &&& stayed && line.text.len() > 0 && line.text[0] == ' ' ==> seq![' '] + code->0
                == line.text
            &&& stayed && line.text.len() > 0 && line.text[0] != ' ' ==> code->0 == line.text
        }),
{
    if line.text.len() > 0 {
        assert(seq![line.text[0]] + line.text.drop_first() =~= line.text);
    }
}

/// A file that git does not follow is shown whole: its path, then every line as added,
/// numbered from one.
pub proof fn law_untracked_files_are_shown_whole(path: Seq<char>, body: Seq<char>, i: int)
    requires
        0 <= i < text::lines_of(body).len() < u32::MAX,
    ensures
        ({
            let shown = untracked_lines(path, body);
            let line = shown[i + 1];
            &&& shown.len() == text::lines_of(body).len() + 1
            &&& shown[0].kind == DiffLineKind::Header && shown[0].text == "untracked file: "@
                + path
            &&& line.kind == DiffLineKind::Added && line.text == seq!['+'] + text::lines_of(body)[i]
            &&& line.new_lineno == Some((i + 1) as u32) && line.old_lineno is None
        }),
{
    reveal_strlit("+");
    assert("+"@ =~= seq!['+']);
}

/// There is a branch exactly where git printed a name other than that of a detached
/// head.
pub proof fn law_a_detached_head_is_no_branch(stdout: Seq<char>)
    ensures
        branch_of(stdout) is None <==> text::trimmed(stdout).len() == 0 || text::trimmed(stdout)
            == "HEAD"@,
        branch_of(stdout) is Some ==> branch_of(stdout)->0 == text::trimmed(stdout),
{
}

/// The model of an entry has each field under its own name.
pub proof fn law_entries_say_their_fields(n: NumstatEntry, d: DiffNameStatusEntry)
    ensures
        n.deep_view().path == n.path@ && n.deep_view().binary == n.binary,
        n.deep_view().additions == n.additions && n.deep_view().deletions == n.deletions,
        d.deep_view().path == d.path@ && d.deep_view().status == d.status,
{
}

} // verus!
