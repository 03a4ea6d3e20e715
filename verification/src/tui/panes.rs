//! The panes of the control center and of the diff view, and the top bar.
use crate::config::model::Recipe;
use crate::config::scripts::ScriptCommand;
use crate::container::ServiceStatus;
use crate::durations;
use crate::durations::{format_minutes, format_seconds, SECOND};
use crate::paths;
use crate::text;
use crate::text::{concat, concat3};
use crate::textmap::TextMap;
use crate::tui::app;
use crate::tui::app::{App, Item, ItemKind};
use crate::tui::diff;
use crate::tui::diff::{DiffLine, DiffLineKind, DiffStatus};
use crate::tui::runner::{CapturedLine, OutputStream, RunState};
use crate::tui::services::ServicePane;
use crate::tui::terminals;
use crate::tui::ui;
use crate::tui::ui::{
    accent_bold, bold, counted_title_line, extend_lines, faint, fg, fg_bold, highlight, no_lines,
    plain, push_blank, push_line, push_text, service_indicator_style, Color, Line, ListPane, Style,
    TextPane,
};
use crate::tui::watchers;
use crate::tui::watchers::{WatcherPane, WatcherState};
use std::collections::VecDeque;
use crate::lists;
use vstd::prelude::*;

verus! {

// ---------------------------------------------------------------------------
// Word wrapping
// ---------------------------------------------------------------------------
/// The open line and the finished lines once a word is added: it joins the open
/// line where the width allows, else it opens the next.
pub open spec fn word_added(
    done: Seq<Seq<char>>,
    open: Seq<char>,
    word: Seq<char>,
    width: nat,
) -> (Seq<Seq<char>>, Seq<char>) {
    if open.len() == 0 {
        (done, word)
    } else if text::utf8_len(open) + 1 + text::utf8_len(word) <= width {
        (done, open.push(' ') + word)
    } else {
        (done.push(open), word)
    }
}

/// The finished lines and the open line behind the first `n` words.
pub open spec fn words_wrapped(
    words: Seq<Seq<char>>,
    n: nat,
    width: nat,
) -> (Seq<Seq<char>>, Seq<char>)
    decreases n,
{
    if n == 0 {
        (seq![], seq![])
    } else {
        let before = words_wrapped(words, (n - 1) as nat, width);
        word_added(before.0, before.1, words[n - 1], width)
    }
}

/// `s` broken between words into lines of at most `width` bytes, as far as its
/// words fit.
pub open spec fn wrapped(s: Seq<char>, width: nat) -> Seq<Seq<char>> {
    if width == 0 {
        if s.len() == 0 {
            seq![]
        } else {
            seq![s]
        }
    } else {
        let words = text::words_of(s);
        let end = words_wrapped(words, words.len(), width);
        if end.1.len() > 0 {
            end.0.push(end.1)
        } else {
            end.0
        }
    }
}

/// Breaks `s` between words into lines of at most `width` bytes. A longer word
/// stands alone on a line that overflows. A width of zero breaks nothing. An empty
/// text has no lines.
pub fn wrap_words(s: &str, width: usize) -> (res: Vec<String>)
    ensures
        res.deep_view() == wrapped(s@, width as nat),
{
    let mut out: Vec<String> = Vec::new();
    if width == 0 {
        if !s.is_empty() {
            out.push(s.to_owned());
        }
        assert(out.deep_view() =~= wrapped(s@, 0));
        return out;
    }
    let words = text::split_whitespace(s);
    let ghost all = words.deep_view();
    let mut current = String::new();
    let mut i: usize = 0;
    assert(out.deep_view() =~= Seq::<Seq<char>>::empty());
    while i < words.len()
        invariant
            i <= words@.len(),
            all == words.deep_view(),
            (out.deep_view(), current@) == words_wrapped(all, i as nat, width as nat),
        decreases words@.len() - i,
    {
        let word = words[i].as_str();
        assert(all[i as int] == word@);
        let ghost before = out.deep_view();
        if current.as_str().is_empty() {
            current = word.to_owned();
        } else if fits(current.as_str(), word, width) {
            current.push(' ');
            current.append(word);
        } else {
            out.push(current);
            assert(out.deep_view() =~= before.push(current@));
            current = word.to_owned();
        }
        i += 1;
    }
    if !current.as_str().is_empty() {
        let ghost before = out.deep_view();
        out.push(current);
        assert(out.deep_view() =~= before.push(current@));
    }
    out
}

fn fits(open: &str, word: &str, width: usize) -> (res: bool)
    ensures
        res == (text::utf8_len(open@) + 1 + text::utf8_len(word@) <= width),
{
    let a: usize = text::byte_len(open);
    let b: usize = text::byte_len(word);
    a < width && b <= width - a - 1
}

/// Whether `line` is made of one word, or is at most `width` bytes long.
pub open spec fn line_fits(line: Seq<char>, words: Seq<Seq<char>>, width: nat) -> bool {
    words.contains(line) || text::utf8_len(line) <= width
}

proof fn lemma_utf8_len_push_word(open: Seq<char>, word: Seq<char>)
    ensures
        text::utf8_len(open.push(' ') + word) == text::utf8_len(open) + 1 + text::utf8_len(word),
{
    let joined = open.push(' ');
    text::lemma_utf8_len_concat(joined, word);
    text::lemma_utf8_len_concat(open, seq![' ']);
    assert(open + seq![' '] =~= joined);
    text::lemma_utf8_len_ascii(' ');
}

proof fn lemma_wrapped_lines_fit(words: Seq<Seq<char>>, n: nat, width: nat)
    requires
        n <= words.len(),
    ensures
        forall|i: int|
            0 <= i < words_wrapped(words, n, width).0.len() ==> line_fits(
                #[trigger] words_wrapped(words, n, width).0[i],
                words,
                width,
            ),
        words_wrapped(words, n, width).1.len() > 0 ==> line_fits(
            words_wrapped(words, n, width).1,
            words,
            width,
        ),
    decreases n,
{
    if n > 0 {
        lemma_wrapped_lines_fit(words, (n - 1) as nat, width);
        let before = words_wrapped(words, (n - 1) as nat, width);
        assert(words.contains(words[n - 1]));
        lemma_utf8_len_push_word(before.1, words[n - 1]);
    }
}

/// A wrapped line is at most `width` bytes long unless it is a single word.
pub proof fn law_wrapped_lines_fit(s: Seq<char>, width: nat, i: int)
    requires
        width > 0,
        0 <= i < wrapped(s, width).len(),
    ensures
        line_fits(wrapped(s, width)[i], text::words_of(s), width),
{
    let words = text::words_of(s);
    lemma_wrapped_lines_fit(words, words.len(), width);
}

proof fn lemma_wrapped_keeps_words(words: Seq<Seq<char>>, n: nat, width: nat)
    requires
        n <= words.len(),
        forall|i: int| 0 <= i < words.len() ==> (#[trigger] words[i]).len() > 0,
    ensures
        ({
            let w = words_wrapped(words, n, width);
            &&& n == 0 ==> w.0.len() == 0 && w.1.len() == 0
            &&& n > 0 ==> w.1.len() > 0 && text::joined(w.0.push(w.1), " "@) == text::joined(
                words.take(n as int),
                " "@,
            )
        }),
    decreases n,
{
    if n > 0 {
        lemma_wrapped_keeps_words(words, (n - 1) as nat, width);
        let before = words_wrapped(words, (n - 1) as nat, width);
        let word = words[n - 1];
        let taken = words.take(n as int);
        assert(taken.drop_last() =~= words.take(n - 1));
        assert(taken.last() == word);
        reveal_strlit(" ");
        assert(" "@ =~= seq![' ']);
        if n == 1 {
            assert(words_wrapped(words, n, width).0.push(word) =~= seq![word]);
            assert(taken =~= seq![word]);
        } else {
            let open = before.1;
            let lines = before.0.push(open);
            if text::utf8_len(open) + 1 + text::utf8_len(word) <= width {
                let longer = open.push(' ') + word;
                let after = before.0.push(longer);
                assert(after.drop_last() =~= before.0);
                assert(lines.drop_last() =~= before.0);
                if before.0.len() == 0 {
                    assert(text::joined(after, " "@) == longer);
                    assert(text::joined(lines, " "@) == open);
                    assert(longer =~= open + " "@ + word);
                } else {
                    let front = text::joined(before.0, " "@) + " "@;
                    assert(front + longer =~= (front + open) + " "@ + word);
                }
            } else {
                let after = lines.push(word);
                assert(after.drop_last() =~= lines);
            }
        }
    }
}

/// Wrapping loses, adds and reorders no word: joined by spaces, the lines are the
/// words of the text joined by spaces.
pub proof fn law_wrapping_keeps_the_words(s: Seq<char>, width: nat)
    requires
        width > 0,
    ensures
        text::joined(wrapped(s, width), " "@) == text::joined(text::words_of(s), " "@),
{
    let words = text::words_of(s);
    text::lemma_words_not_empty(s);
    lemma_wrapped_keeps_words(words, words.len(), width);
    assert(words.take(words.len() as int) =~= words);
}

// ---------------------------------------------------------------------------
// Diff view
// ---------------------------------------------------------------------------
/// The colour of a file's status letter.
pub open spec fn letter_color(status: DiffStatus) -> Color {
    match status {
        DiffStatus::Modified => Color::Yellow,
        DiffStatus::Added => Color::Green,
        DiffStatus::Untracked => Color::Green,
        DiffStatus::Deleted => Color::Red,
        DiffStatus::Renamed => Color::Cyan,
        DiffStatus::Other => Color::DarkGray,
    }
}

fn letter_style(status: DiffStatus) -> (res: Style)
    ensures
        res == fg(letter_color(status)),
{
    match status {
        DiffStatus::Modified => fg(Color::Yellow),
        DiffStatus::Added => fg(Color::Green),
        DiffStatus::Untracked => fg(Color::Green),
        DiffStatus::Deleted => fg(Color::Red),
        DiffStatus::Renamed => fg(Color::Cyan),
        DiffStatus::Other => fg(Color::DarkGray),
    }
}

/// A row of the file list: the status letter and the path.
pub open spec fn file_row(f: diff::FileModel, selected: bool) -> Seq<ui::SpanModel> {
    seq![
        ui::span(" "@.push(f.status.letter_char()).push(' '), fg(letter_color(f.status))),
        ui::span(
            f.path,
            if selected {
                highlight()
            } else {
                plain()
            },
        ),
    ]
}

/// What the file list says: that it loads, that it failed, that nothing changed,
/// or the changed files.
pub open spec fn diff_files_body(d: diff::DiffState) -> Seq<Seq<ui::SpanModel>> {
    if !d.loaded {
        seq![ui::text_line("  loading…"@, faint())]
    } else if d.error is Some {
        seq![
            ui::text_line("  error"@, fg(Color::Red)),
            ui::text_line("  "@ + d.error->0@, faint()),
        ]
    } else if d.files@.len() == 0 {
        seq![
            ui::blank(),
            ui::text_line("  no changes — working tree clean"@, faint()),
            ui::blank(),
            ui::text_line("  press r to refresh"@, faint()),
        ]
    } else {
        Seq::new(
            d.files@.len(),
            |i: int| file_row(d.files.deep_view()[i], i == d.selected),
        )
    }
}

/// The file list of the diff view.
pub fn render_diff_files(a: &App) -> (res: TextPane)
    ensures
        res.title.deep_view() == ui::counted_title("changes"@, a.diff.files@.len()),
        res.lines.deep_view() == diff_files_body(a.diff),
{
    let d = a.diff();
    let title = counted_title_line("changes", d.files.len());
    let mut lines = no_lines();
    if !d.loaded {
        push_text(&mut lines, "  loading…", faint());
        return TextPane { title, lines };
    }
    if let Some(err) = &d.error {
        push_text(&mut lines, "  error", fg(Color::Red));
        let text = concat("  ", err.as_str());
        push_text(&mut lines, text.as_str(), faint());
        return TextPane { title, lines };
    }
    if d.files.len() == 0 {
        push_blank(&mut lines);
        push_text(&mut lines, "  no changes — working tree clean", faint());
        push_blank(&mut lines);
        push_text(&mut lines, "  press r to refresh", faint());
        return TextPane { title, lines };
    }
    let ghost want = diff_files_body(a.diff);
    let mut i: usize = 0;
    assert(lines.deep_view() =~= want.take(0));
    while i < d.files.len()
        invariant
            i <= d.files@.len(),
            *d == a.diff,
            want == Seq::new(
                d.files@.len(),
                |j: int| file_row(d.files.deep_view()[j], j == d.selected),
            ),
            lines.deep_view() == want.take(i as int),
        decreases d.files@.len() - i,
    {
        let ghost before = lines.deep_view();
        let f = &d.files[i];
        assert(d.files.deep_view()[i as int] == f.deep_view());
        let mut letter = " ".to_owned();
        letter.push(f.status.letter());
        letter.push(' ');
        let mut line = Line::new();
        line.push(letter.as_str(), letter_style(f.status));
        line.push(
            f.path.as_str(),
            if i == d.selected {
                highlight()
            } else {
                plain()
            },
        );
        assert(line.deep_view() =~= want[i as int]);
        push_line(&mut lines, line);
        assert(want.take(i + 1) =~= before.push(want[i as int]));
        i += 1;
    }
    assert(want.take(i as int) =~= want);
    TextPane { title, lines }
}

/// The style of a diff line.
pub open spec fn diff_line_style(kind: DiffLineKind) -> Style {
    match kind {
        DiffLineKind::Added => fg(Color::Green),
        DiffLineKind::Removed => fg(Color::Red),
        DiffLineKind::Hunk => fg(Color::Cyan),
        DiffLineKind::Header => fg(Color::DarkGray),
        DiffLineKind::Context => plain(),
    }
}

/// A line of a diff.
pub fn render_diff_line(line: &DiffLine) -> (res: Line)
    ensures
        res.deep_view() == ui::text_line(line.text@, diff_line_style(line.kind)),
{
    let style = match line.kind {
        DiffLineKind::Added => fg(Color::Green),
        DiffLineKind::Removed => fg(Color::Red),
        DiffLineKind::Hunk => fg(Color::Cyan),
        DiffLineKind::Header => fg(Color::DarkGray),
        DiffLineKind::Context => plain(),
    };
    let mut out = Line::new();
    out.push(line.text.as_str(), style);
    out
}

/// Where the last `max` of `total` lines begin.
pub open spec fn tail_start(total: nat, max: nat) -> int {
    if total > max {
        total - max
    } else {
        0
    }
}

/// Where the diff pane begins: at the line `top`, or, where the pane has not been
/// moved, so that the last `max` lines show.
pub open spec fn diff_start(total: nat, top: Option<usize>, max: nat) -> int {
    match top {
        Some(t) => if t < total {
            t as int
        } else {
            total as int
        },
        None => tail_start(total, max),
    }
}

/// The lines of a diff from `start` on.
pub open spec fn diff_from(lines: Seq<DiffLine>, start: int) -> Seq<Seq<ui::SpanModel>> {
    lines.skip(start).map_values(
        |l: DiffLine| ui::text_line(l.text@, diff_line_style(l.kind)),
    )
}

fn diff_lines_from(all: &Vec<DiffLine>, start: usize) -> (res: Vec<Line>)
    requires
        start <= all@.len(),
    ensures
        res.deep_view() == diff_from(all@, start as int),
{
    let ghost want = diff_from(all@, start as int);
    let mut lines = no_lines();
    let mut i: usize = start;
    assert(lines.deep_view() =~= want.take(0));
    while i < all.len()
        invariant
            start <= i <= all@.len(),
            want == diff_from(all@, start as int),
            lines.deep_view() == want.take(i - start),
        decreases all@.len() - i,
    {
        let ghost before = lines.deep_view();
        let line = render_diff_line(&all[i]);
        assert(all@.skip(start as int)[i - start] == all@[i as int]);
        push_line(&mut lines, line);
        assert(want.take(i - start + 1) =~= before.push(want[i - start]));
        i += 1;
    }
    assert(want.take(i - start) =~= want);
    lines
}

fn shown_diff_lines(all: &Vec<DiffLine>, top: Option<usize>, max: usize) -> (res: Vec<Line>)
    ensures
        res.deep_view() == diff_from(all@, diff_start(all@.len(), top, max as nat)),
{
    let start: usize = match top {
        Some(t) => if t < all.len() {
            t
        } else {
            all.len()
        },
        None => if all.len() > max {
            all.len() - max
        } else {
            0
        },
    };
    diff_lines_from(all, start)
}

/// The title of the diff pane.
pub open spec fn diff_body_title(d: diff::DiffState) -> Seq<ui::SpanModel> {
    ui::modal_title(
        if d.selected < d.files@.len() {
            "  diff · "@ + d.files@[d.selected as int].path@
        } else {
            "  diff"@
        },
    )
}

/// What the diff pane says: the selected file's diff from `top` on, or its last `max`
/// lines, or that it loads, or that a file is to be picked.
pub open spec fn diff_body(d: diff::DiffState, top: Option<usize>, max: nat) -> Seq<
    Seq<ui::SpanModel>,
> {
    if d.selected < d.files@.len() {
        let path = d.files@[d.selected as int].path@;
        if d.cache@.contains_key(path) {
            let lines = d.cache@[path]@;
            diff_from(lines, diff_start(lines.len(), top, max))
        } else {
            seq![ui::text_line("loading diff…"@, faint())]
        }
    } else {
        seq![ui::text_line("select a file on the left"@, faint())]
    }
}

/// The diff pane of the diff view; `max` lines fit. It begins at the line `top` once
/// it has been moved.
pub fn render_diff_body(a: &App, top: Option<usize>, max: usize) -> (res: TextPane)
    ensures
        res.title.deep_view() == diff_body_title(a.diff),
        res.lines.deep_view() == diff_body(a.diff, top, max as nat),
{
    match a.diff_selected_file() {
        Some(f) => {
            let label = concat("  diff · ", f.path.as_str());
            let title = ui::modal_title_line(label.as_str());
            let lines = match a.diff_cache_for(f.path.as_str()) {
                Some(all) => shown_diff_lines(all, top, max),
                None => {
                    let mut lines = no_lines();
                    push_text(&mut lines, "loading diff…", faint());
                    lines
                },
            };
            TextPane { title, lines }
        },
        None => {
            let title = ui::modal_title_line("  diff");
            let mut lines = no_lines();
            push_text(&mut lines, "select a file on the left", faint());
            TextPane { title, lines }
        },
    }
}

// ---------------------------------------------------------------------------
// Top bar
// ---------------------------------------------------------------------------
/// The top bar: the project, and how many services and watchers it has.
pub open spec fn top_bar(a: App) -> Seq<ui::SpanModel> {
    let head = seq![
        ui::span("  scaffl "@, accent_bold()),
        ui::span("│ "@, faint()),
        ui::span(
            match a.config.project.name {
                Some(n) => n@,
                None => "scaffl"@,
            },
            bold(),
        ),
    ];
    let services = a.services.keys().len();
    let watchers = a.watchers.keys().len();
    if services > 0 || watchers > 0 {
        head.push(
            ui::span(
                "  │  "@ + text::digits(services) + " services, "@ + text::digits(watchers)
                    + " watchers"@,
                faint(),
            ),
        )
    } else {
        head
    }
}

/// The top bar.
pub fn render_top_bar(a: &App) -> (res: Line)
    ensures
        res.deep_view() == top_bar(*a),
{
    let mut line = Line::new();
    line.push("  scaffl ", accent_bold());
    line.push("│ ", faint());
    match &a.config.project.name {
        Some(n) => line.push(n.as_str(), bold()),
        None => line.push("scaffl", bold()),
    }
    let services: usize = a.services.len();
    let watchers: usize = a.watchers.len();
    if services > 0 || watchers > 0 {
        let s = text::decimal(services as u64);
        let w = text::decimal(watchers as u64);
        let head = concat3("  │  ", s.as_str(), " services, ");
        let text = concat3(head.as_str(), w.as_str(), " watchers");
        line.push(text.as_str(), faint());
    }
    line
}

// ---------------------------------------------------------------------------
// Sidebar
// ---------------------------------------------------------------------------
/// The glyph of a row.
pub open spec fn glyph(kind: ItemKind) -> Seq<char> {
    match kind {
        ItemKind::Container => "●"@,
        ItemKind::Service => "●"@,
        ItemKind::Watcher => "◇"@,
        ItemKind::Recipe => "▸"@,
        ItemKind::Script => "▸"@,
    }
}

/// The glyph of a row: recipes and scripts share one, as do services and the
/// container.
pub fn glyph_for(kind: ItemKind) -> (res: &'static str)
    ensures
        res@ == glyph(kind),
{
    match kind {
        ItemKind::Container => "●",
        ItemKind::Service => "●",
        ItemKind::Watcher => "◇",
        ItemKind::Recipe => "▸",
        ItemKind::Script => "▸",
    }
}

/// The colour of a run: grey before the first, yellow while it goes, then green
/// or red.
pub open spec fn run_color(run: Option<RunState>) -> Color {
    match run {
        None => Color::DarkGray,
        Some(r) => if !r.done() {
            Color::Yellow
        } else if r.exit_code == Some(0i32) {
            Color::Green
        } else {
            Color::Red
        },
    }
}

fn run_indicator_style(run: Option<&RunState>) -> (res: Style)
    ensures
        res == fg(
            run_color(
                match run {
                    Some(r) => Some(*r),
                    None => None,
                },
            ),
        ),
{
    match run {
        None => fg(Color::DarkGray),
        Some(r) => if !r.is_done() {
            fg(Color::Yellow)
        } else {
            match r.exit_code {
                Some(0) => fg(Color::Green),
                _ => fg(Color::Red),
            }
        },
    }
}

/// The colour of a watcher.
pub open spec fn watcher_color(watchers: Map<Seq<char>, WatcherPane>, name: Seq<char>) -> Color {
    if !watchers.contains_key(name) {
        Color::DarkGray
    } else {
        let w = watchers[name];
        match w.state {
            WatcherState::Idle => match w.last_exit_code {
                None => Color::DarkGray,
                Some(c) => if c == 0 {
                    Color::Green
                } else {
                    Color::Red
                },
            },
            WatcherState::Debouncing => Color::Yellow,
            WatcherState::Running => Color::Cyan,
        }
    }
}

fn watcher_indicator_style(a: &App, name: &str) -> (res: Style)
    ensures
        res == fg(watcher_color(a.watchers@, name@)),
{
    match a.watchers.get(name) {
        None => fg(Color::DarkGray),
        Some(w) => match w.state {
            WatcherState::Idle => match w.last_exit_code {
                None => fg(Color::DarkGray),
                Some(c) => if c == 0 {
                    fg(Color::Green)
                } else {
                    fg(Color::Red)
                },
            },
            WatcherState::Debouncing => fg(Color::Yellow),
            WatcherState::Running => fg(Color::Cyan),
        },
    }
}

/// The colour of a row's glyph.
pub open spec fn item_color(a: App, item: app::ItemModel) -> Color {
    match item.kind {
        ItemKind::Container => run_color(a.lifecycle_run),
        ItemKind::Service => ui::service_color(a.services@, item.name),
        ItemKind::Watcher => watcher_color(a.watchers@, item.name),
        ItemKind::Recipe => run_color(app::run_of(a.runs@, item.kind, item.name)),
        ItemKind::Script => run_color(app::run_of(a.runs@, item.kind, item.name)),
    }
}

fn item_indicator_style(a: &App, item: &Item) -> (res: Style)
    ensures
        res == fg(item_color(*a, item.deep_view())),
{
    match item.kind {
        ItemKind::Container => run_indicator_style(a.lifecycle_run()),
        ItemKind::Service => service_indicator_style(a, item.name.as_str()),
        ItemKind::Watcher => watcher_indicator_style(a, item.name.as_str()),
        ItemKind::Recipe => run_indicator_style(a.run_for(item.kind, item.name.as_str())),
        ItemKind::Script => run_indicator_style(a.run_for(item.kind, item.name.as_str())),
    }
}

/// The tag of a service row that no container backend runs; other rows have none.
pub open spec fn row_badge(a: App, item: app::ItemModel) -> Option<Seq<char>> {
    if item.kind == ItemKind::Service {
        terminals::badge_of(*a.config, item.name)
    } else {
        None
    }
}

/// A dim grey tag.
#[verifier::allow_in_spec]
pub fn badge_style() -> (res: Style)
    returns
        (Style { fg: Some(Color::DarkGray), bg: None, bold: false, italic: false, dim: true }),
{
    Style { fg: Some(Color::DarkGray), bg: None, bold: false, italic: false, dim: true }
}

/// A sidebar row.
pub open spec fn item_row(a: App, item: app::ItemModel) -> Seq<ui::SpanModel> {
    let head = seq![
        ui::span(glyph(item.kind) + " "@, fg(item_color(a, item))),
        ui::span(item.name, plain()),
    ];
    match row_badge(a, item) {
        Some(badge) => head.push(ui::span("  "@, plain())).push(ui::span(badge, badge_style())),
        None => head,
    }
}

fn item_row_line(a: &App, item: &Item) -> (res: Line)
    ensures
        res.deep_view() == item_row(*a, item.deep_view()),
{
    let mut line = Line::new();
    let g = concat(glyph_for(item.kind), " ");
    line.push(g.as_str(), item_indicator_style(a, item));
    line.push(item.name.as_str(), plain());
    if item.kind == ItemKind::Service {
        if let Some(badge) = a.service_badge(item.name.as_str()) {
            line.push("  ", plain());
            line.push(badge, badge_style());
        }
    }
    line
}

/// The sidebar's groups, in the order in which they stand.
#[derive(Debug, Clone, Copy, PartialEq, Eq, Structural)]
pub enum Group {
    Container,
    Services,
    Watchers,
    Commands,
}

impl Group {
    /// The group of a row; recipes and scripts share one.
    pub open spec fn of(kind: ItemKind) -> Group {
        match kind {
            ItemKind::Container => Group::Container,
            ItemKind::Service => Group::Services,
            ItemKind::Watcher => Group::Watchers,
            ItemKind::Recipe => Group::Commands,
            ItemKind::Script => Group::Commands,
        }
    }

    fn holds(self, kind: ItemKind) -> (res: bool)
        ensures
            res == (self == Group::of(kind)),
    {
        match kind {
            ItemKind::Container => matches!(self, Group::Container),
            ItemKind::Service => matches!(self, Group::Services),
            ItemKind::Watcher => matches!(self, Group::Watchers),
            ItemKind::Recipe => matches!(self, Group::Commands),
            ItemKind::Script => matches!(self, Group::Commands),
        }
    }

    /// The group's title.
    pub open spec fn label_text(self) -> Seq<char> {
        match self {
            Group::Container => "container"@,
            Group::Services => "services"@,
            Group::Watchers => "watchers"@,
            Group::Commands => "commands"@,
        }
    }

    /// The group's title.
    pub fn label(self) -> (res: &'static str)
        ensures
            res@ == self.label_text(),
    {
        match self {
            Group::Container => "container",
            Group::Services => "services",
            Group::Watchers => "watchers",
            Group::Commands => "commands",
        }
    }
}

/// The rows of a group among the first `n` items, in their order.
pub open spec fn group_items(items: Seq<app::ItemModel>, group: Group, n: nat) -> Seq<app::ItemModel>
    decreases n,
{
    if n == 0 {
        seq![]
    } else {
        let before = group_items(items, group, (n - 1) as nat);
        if Group::of(items[n - 1].kind) == group {
            before.push(items[n - 1])
        } else {
            before
        }
    }
}

/// A group as it is shown, given how many rows stand above it: nothing for one
/// without rows.
pub open spec fn group_shown(a: App, group: Group, above: int, pane: Option<ListPane>) -> bool {
    let items = group_items(a.items.deep_view(), group, a.items@.len());
    match pane {
        None => items.len() == 0,
        Some(p) => {
            &&& items.len() > 0
            &&& p.title.deep_view() == ui::counted_title(group.label_text(), items.len())
            &&& p.rows.deep_view() == items.map_values(|i: app::ItemModel| item_row(a, i))
            &&& p.selected == ui::local_selection(a.selected as int, above, above + items.len())
        },
    }
}

fn render_group(a: &App, group: Group, above: usize) -> (res: (Option<ListPane>, usize))
    requires
        above + group_items(a.items.deep_view(), group, a.items@.len()).len() <= usize::MAX,
    ensures
        group_shown(*a, group, above as int, res.0),
        res.1 == above + group_items(a.items.deep_view(), group, a.items@.len()).len(),
{
    let ghost all = a.items.deep_view();
    let mut rows = no_lines();
    let mut count: usize = 0;
    let mut i: usize = 0;
    assert(rows.deep_view() =~= group_items(all, group, 0).map_values(
        |i: app::ItemModel| item_row(*a, i),
    ));
    while i < a.items.len()
        invariant
            i <= a.items@.len(),
            all == a.items.deep_view(),
            count == group_items(all, group, i as nat).len(),
            count <= i,
            rows.deep_view() == group_items(all, group, i as nat).map_values(
                |i: app::ItemModel| item_row(*a, i),
            ),
        decreases a.items@.len() - i,
    {
        assert(all[i as int] == a.items@[i as int].deep_view());
        let ghost before = rows.deep_view();
        if group.holds(a.items[i].kind) {
            let line = item_row_line(a, &a.items[i]);
            push_line(&mut rows, line);
            count += 1;
            assert(rows.deep_view() =~= group_items(all, group, (i + 1) as nat).map_values(
                |i: app::ItemModel| item_row(*a, i),
            ));
        }
        i += 1;
    }
    let end: usize = above + count;
    if count == 0 {
        return (None, end);
    }
    let selected: Option<usize> = if above <= a.selected && a.selected < end {
        Some(a.selected - above)
    } else {
        None
    };
    let title = counted_title_line(group.label(), count);
    (Some(ListPane { title, rows, selected }), end)
}

/// The sidebar: the groups that have rows. The selection counts through them.
#[derive(Debug, PartialEq, Eq)]
pub struct Sidebar {
    pub container: Option<ListPane>,
    pub services: Option<ListPane>,
    pub watchers: Option<ListPane>,
    pub commands: Option<ListPane>,
}

/// How many of the first `n` items stand in that group.
pub open spec fn group_size(a: App, group: Group) -> int {
    group_items(a.items.deep_view(), group, a.items@.len()).len() as int
}

proof fn lemma_group_sizes(items: Seq<app::ItemModel>, n: nat)
    requires
        n <= items.len(),
    ensures
        group_items(items, Group::Container, n).len() + group_items(items, Group::Services, n).len()
            + group_items(items, Group::Watchers, n).len() + group_items(
            items,
            Group::Commands,
            n,
        ).len() == n,
    decreases n,
{
    if n > 0 {
        lemma_group_sizes(items, (n - 1) as nat);
    }
}

/// Every row of the dashboard stands in exactly one group of the sidebar.
pub proof fn law_groups_share_out_the_rows(a: App)
    ensures
        group_size(a, Group::Container) + group_size(a, Group::Services) + group_size(
            a,
            Group::Watchers,
        ) + group_size(a, Group::Commands) == a.items@.len(),
{
    lemma_group_sizes(a.items.deep_view(), a.items@.len());
}

/// The sidebar.
pub fn build_groups(a: &App) -> (res: Sidebar)
    ensures
        group_shown(*a, Group::Container, 0, res.container),
        group_shown(*a, Group::Services, group_size(*a, Group::Container), res.services),
        group_shown(
            *a,
            Group::Watchers,
            group_size(*a, Group::Container) + group_size(*a, Group::Services),
            res.watchers,
        ),
        group_shown(
            *a,
            Group::Commands,
            group_size(*a, Group::Container) + group_size(*a, Group::Services) + group_size(
                *a,
                Group::Watchers,
            ),
            res.commands,
        ),
{
    let total: usize = a.items.len();
    proof {
        law_groups_share_out_the_rows(*a);
    }
    let (container, above_services) = render_group(a, Group::Container, 0);
    let (services, above_watchers) = render_group(a, Group::Services, above_services);
    let (watchers, above_commands) = render_group(a, Group::Watchers, above_watchers);
    let (commands, end) = render_group(a, Group::Commands, above_commands);
    assert(end == total);
    Sidebar { container, services, watchers, commands }
}

// ---------------------------------------------------------------------------
// Output panes
// ---------------------------------------------------------------------------
/// A captured line; errors are red.
pub open spec fn captured_line(line: CapturedLine) -> Seq<ui::SpanModel> {
    ui::text_line(
        line.text@,
        match line.stream {
            OutputStream::Stdout => plain(),
            OutputStream::Stderr => fg(Color::Red),
        },
    )
}

/// A captured line.
pub fn render_captured_line(line: &CapturedLine) -> (res: Line)
    ensures
        res.deep_view() == captured_line(*line),
{
    let style = match line.stream {
        OutputStream::Stdout => plain(),
        OutputStream::Stderr => fg(Color::Red),
    };
    let mut out = Line::new();
    out.push(line.text.as_str(), style);
    out
}

/// The last `max` lines of a buffer.
pub open spec fn buffer_tail(buf: Seq<CapturedLine>, max: nat) -> Seq<Seq<ui::SpanModel>> {
    buf.skip(tail_start(buf.len(), max)).map_values(|l: CapturedLine| captured_line(l))
}

fn buffer_tail_lines(buf: &VecDeque<CapturedLine>, max: usize) -> (res: Vec<Line>)
    ensures
        res.deep_view() == buffer_tail(buf@, max as nat),
{
    let start: usize = if buf.len() > max {
        buf.len() - max
    } else {
        0
    };
    let ghost want = buffer_tail(buf@, max as nat);
    let mut lines = no_lines();
    let mut i: usize = start;
    assert(lines.deep_view() =~= want.take(0));
    while i < buf.len()
        invariant
            start <= i <= buf@.len(),
            start == tail_start(buf@.len(), max as nat),
            want == buffer_tail(buf@, max as nat),
            lines.deep_view() == want.take(i - start),
        decreases buf@.len() - i,
    {
        let ghost before = lines.deep_view();
        let line = render_captured_line(&buf[i]);
        assert(buf@.skip(start as int)[i - start] == buf@[i as int]);
        push_line(&mut lines, line);
        assert(want.take(i - start + 1) =~= before.push(want[i - start]));
        i += 1;
    }
    assert(want.take(i - start) =~= want);
    lines
}

/// The name in front of a pane's state.
pub open spec fn pane_head(name: Seq<char>) -> Seq<ui::SpanModel> {
    seq![ui::span(" "@, plain()), ui::span(name, bold()), ui::span("  "@, plain())]
}

fn pane_head_line(name: &str) -> (res: Line)
    ensures
        res.deep_view() == pane_head(name@),
{
    let mut line = Line::new();
    line.push(" ", plain());
    line.push(name, bold());
    line.push("  ", plain());
    line
}

/// How long a run went, as text: whole seconds from a minute on.
pub open spec fn duration_text(secs: int, nanos: int) -> Seq<char> {
    if secs < 60 {
        durations::seconds_text(secs, nanos)
    } else {
        durations::minutes_text((secs / 60) as nat, (secs % 60) as nat)
    }
}

/// How long a run went, as text.
pub fn format_duration(secs: u64, nanos: u32) -> (res: String)
    requires
        nanos < SECOND,
    ensures
        res@ == duration_text(secs as int, nanos as int),
{
    if secs < 60 {
        format_seconds(secs, nanos)
    } else {
        format_minutes(secs / 60, secs % 60)
    }
}

/// The title of a run's pane; `duration` is how long it went, as text.
pub open spec fn run_title(run: RunState, duration: Seq<char>) -> Seq<ui::SpanModel> {
    pane_head(run.name@).push(
        match run.exit_code {
            Some(code) => if code == 0 {
                ui::span("✓ exit 0 · "@ + duration + " "@, fg_bold(Color::Green))
            } else {
                ui::span(
                    "✗ exit "@ + text::signed_digits(code as int) + " · "@ + duration + " "@,
                    fg_bold(Color::Red),
                )
            },
            None => match run.error {
                Some(e) => ui::span("! "@ + e@ + " · "@ + duration + " "@, fg(Color::Red)),
                None => ui::span("● running · "@ + duration + " "@, fg_bold(Color::Yellow)),
            },
        },
    )
}

/// The title of a run's pane.
pub fn run_pane_title(run: &RunState, duration: &str) -> (res: Line)
    ensures
        res.deep_view() == run_title(*run, duration@),
{
    let mut line = pane_head_line(run.name.as_str());
    if let Some(code) = run.exit_code {
        if code == 0 {
            let text = concat3("✓ exit 0 · ", duration, " ");
            line.push(text.as_str(), fg_bold(Color::Green));
        } else {
            let n = text::signed_decimal(code as i64);
            let head = concat3("✗ exit ", n.as_str(), " · ");
            let text = concat3(head.as_str(), duration, " ");
            line.push(text.as_str(), fg_bold(Color::Red));
        }
    } else if let Some(err) = &run.error {
        let head = concat3("! ", err.as_str(), " · ");
        let text = concat3(head.as_str(), duration, " ");
        line.push(text.as_str(), fg(Color::Red));
    } else {
        let text = concat3("● running · ", duration, " ");
        line.push(text.as_str(), fg_bold(Color::Yellow));
    }
    line
}

/// The title of a service's pane.
pub open spec fn service_title(pane: ServicePane) -> Seq<ui::SpanModel> {
    pane_head(pane.name@).push(
        if pane.tail_error is Some {
            ui::span("✗ unavailable "@, fg_bold(Color::Red))
        } else {
            match pane.status {
                Some(ServiceStatus::Running) => ui::span("● running "@, fg_bold(Color::Green)),
                Some(ServiceStatus::Stopped) => ui::span("○ stopped "@, fg_bold(Color::Yellow)),
                Some(ServiceStatus::Missing) => ui::span("✗ missing "@, fg_bold(Color::Red)),
                None => ui::span("? unknown "@, faint()),
            }
        },
    )
}

/// The title of a service's pane.
pub fn service_pane_title(pane: &ServicePane) -> (res: Line)
    ensures
        res.deep_view() == service_title(*pane),
{
    let mut line = pane_head_line(pane.name.as_str());
    if pane.tail_error.is_some() {
        line.push("✗ unavailable ", fg_bold(Color::Red));
    } else {
        match pane.status {
            Some(ServiceStatus::Running) => line.push("● running ", fg_bold(Color::Green)),
            Some(ServiceStatus::Stopped) => line.push("○ stopped ", fg_bold(Color::Yellow)),
            Some(ServiceStatus::Missing) => line.push("✗ missing ", fg_bold(Color::Red)),
            None => line.push("? unknown ", faint()),
        }
    }
    line
}

/// What a service's pane says: that output is awaited, why there is none, or the
/// last `max` lines.
pub open spec fn service_body(pane: ServicePane, max: nat) -> Seq<Seq<ui::SpanModel>> {
    match pane.tail_error {
        Some(e) => seq![
            ui::text_line("log tail unavailable: "@ + e@, fg(Color::Red)),
            ui::blank(),
            ui::text_line("set containers.backend = \"compose\" in scaffl.toml"@, faint()),
            ui::text_line("and ensure docker compose is on PATH."@, faint()),
        ],
        None => if pane.buffer@.len() == 0 {
            seq![ui::text_line("waiting for output…"@, faint())]
        } else {
            buffer_tail(pane.buffer@, max)
        },
    }
}

/// The pane of a service; `max` lines fit.
pub fn render_service_logs(pane: &ServicePane, max: usize) -> (res: TextPane)
    ensures
        res.title.deep_view() == service_title(*pane),
        res.lines.deep_view() == service_body(*pane, max as nat),
{
    let title = service_pane_title(pane);
    let lines = match &pane.tail_error {
        Some(e) => {
            let mut lines = no_lines();
            let text = concat("log tail unavailable: ", e.as_str());
            push_text(&mut lines, text.as_str(), fg(Color::Red));
            push_blank(&mut lines);
            push_text(
                &mut lines,
                "set containers.backend = \"compose\" in scaffl.toml",
                faint(),
            );
            push_text(&mut lines, "and ensure docker compose is on PATH.", faint());
            lines
        },
        None => if pane.buffer.len() == 0 {
            let mut lines = no_lines();
            push_text(&mut lines, "waiting for output…", faint());
            lines
        } else {
            buffer_tail_lines(&pane.buffer, max)
        },
    };
    TextPane { title, lines }
}

/// The title of a watcher's pane; `seconds` is the running time, as text.
pub open spec fn watcher_title(w: WatcherPane, now: u64, seconds: Seq<char>) -> Seq<ui::SpanModel> {
    pane_head(w.name@).push(
        match w.state {
            WatcherState::Idle => match w.last_exit_code {
                None => ui::span("○ idle "@, faint()),
                Some(c) => if c == 0 {
                    ui::span("✓ idle (last 0) "@, fg_bold(Color::Green))
                } else {
                    ui::span(
                        "✗ idle (last "@ + text::signed_digits(c as int) + ") "@,
                        fg_bold(Color::Red),
                    )
                },
            },
            WatcherState::Debouncing => ui::span(
                "◐ cooldown "@ + text::digits(watchers::window_left(w.pending_until, now) as nat)
                    + " ms "@,
                fg_bold(Color::Yellow),
            ),
            WatcherState::Running => ui::span("● running "@ + seconds + "s "@, accent_bold()),
        },
    )
}

/// The title of a watcher's pane at `now`, milliseconds of the pane's clock.
pub fn watcher_pane_title(w: &WatcherPane, now: u64, seconds: &str) -> (res: Line)
    ensures
        res.deep_view() == watcher_title(*w, now, seconds@),
{
    let mut line = pane_head_line(w.name.as_str());
    match w.state {
        WatcherState::Idle => match w.last_exit_code {
            None => line.push("○ idle ", faint()),
            Some(c) => {
                if c == 0 {
                    line.push("✓ idle (last 0) ", fg_bold(Color::Green));
                } else {
                    let n = text::signed_decimal(c as i64);
                    let text = concat3("✗ idle (last ", n.as_str(), ") ");
                    line.push(text.as_str(), fg_bold(Color::Red));
                }
            },
        },
        WatcherState::Debouncing => {
            let left: u64 = watchers::remaining_ms(w.pending_until, now);
            let n = text::decimal(left);
            let text = concat3("◐ cooldown ", n.as_str(), " ms ");
            line.push(text.as_str(), fg_bold(Color::Yellow));
        },
        WatcherState::Running => {
            let text = concat3("● running ", seconds, "s ");
            line.push(text.as_str(), accent_bold());
        },
    }
    line
}

/// What a watcher's pane says while nothing was captured.
pub open spec fn watcher_placeholder(w: WatcherPane) -> Seq<char> {
    match w.state {
        WatcherState::Idle => if w.last_exit_code is None {
            "no run yet — edit a watched file"@
        } else {
            "idle — buffer cleared on next run"@
        },
        WatcherState::Debouncing => "cooldown…"@,
        WatcherState::Running => "starting…"@,
    }
}

/// What a watcher's pane says: the last `max` lines of the most recent run, or
/// what it waits for.
pub open spec fn watcher_body(w: WatcherPane, max: nat) -> Seq<Seq<ui::SpanModel>> {
    if buffer_tail(w.buffer@, max).len() == 0 {
        seq![ui::text_line(watcher_placeholder(w), faint())]
    } else {
        buffer_tail(w.buffer@, max)
    }
}

/// The pane of a watcher; `max` lines fit.
pub fn render_watcher(w: &WatcherPane, now: u64, seconds: &str, max: usize) -> (res: TextPane)
    ensures
        res.title.deep_view() == watcher_title(*w, now, seconds@),
        res.lines.deep_view() == watcher_body(*w, max as nat),
{
    let title = watcher_pane_title(w, now, seconds);
    let captured = buffer_tail_lines(&w.buffer, max);
    assert(captured@.len() == captured.deep_view().len());
    if captured.len() == 0 {
        let mut lines = no_lines();
        let text = match w.state {
            WatcherState::Idle => if w.last_exit_code.is_none() {
                "no run yet — edit a watched file"
            } else {
                "idle — buffer cleared on next run"
            },
            WatcherState::Debouncing => "cooldown…",
            WatcherState::Running => "starting…",
        };
        push_text(&mut lines, text, faint());
        TextPane { title, lines }
    } else {
        TextPane { title, lines: captured }
    }
}

/// The title of a pane whose row has not run.
pub open spec fn idle_title(name: Seq<char>, state: Seq<char>) -> Seq<ui::SpanModel> {
    seq![
        ui::span(" "@, plain()),
        ui::span(name, bold()),
        ui::span(state, faint()),
        ui::span(" "@, plain()),
    ]
}

fn idle_title_line(name: &str, state: &str) -> (res: Line)
    ensures
        res.deep_view() == idle_title(name@, state@),
{
    let mut line = Line::new();
    line.push(" ", plain());
    line.push(name, bold());
    line.push(state, faint());
    line.push(" ", plain());
    line
}

/// What the container pane says before the first lifecycle action.
pub open spec fn idle_container_body() -> Seq<Seq<ui::SpanModel>> {
    seq![
        ui::text_line("no lifecycle action has run yet"@, faint()),
        ui::blank(),
        ui::text_line("U up all · D down all · R restart all · S stop all"@, faint()),
    ]
}

fn render_idle_container(item: &Item) -> (res: TextPane)
    ensures
        res.title.deep_view() == idle_title(item.name@, "  idle"@),
        res.lines.deep_view() == idle_container_body(),
{
    let title = idle_title_line(item.name.as_str(), "  idle");
    let mut lines = no_lines();
    push_text(&mut lines, "no lifecycle action has run yet", faint());
    push_blank(&mut lines);
    push_text(&mut lines, "U up all · D down all · R restart all · S stop all", faint());
    TextPane { title, lines }
}

fn render_idle_buffer(item: &Item) -> (res: TextPane)
    ensures
        res.title.deep_view() == idle_title(item.name@, "  not yet run"@),
        res.lines.deep_view() == seq![ui::text_line("press enter to run"@, faint())],
{
    let title = idle_title_line(item.name.as_str(), "  not yet run");
    let mut lines = no_lines();
    push_text(&mut lines, "press enter to run", faint());
    TextPane { title, lines }
}

fn render_run_buffer(run: &RunState, duration: &str, max: usize) -> (res: TextPane)
    ensures
        res.title.deep_view() == run_title(*run, duration@),
        res.lines.deep_view() == buffer_tail(run.buffer@, max as nat),
{
    let title = run_pane_title(run, duration);
    TextPane { title, lines: buffer_tail_lines(&run.buffer, max) }
}

/// What a title and lines show.
pub open spec fn shows(
    pane: TextPane,
    title: Seq<ui::SpanModel>,
    lines: Seq<Seq<ui::SpanModel>>,
) -> bool {
    pane.title.deep_view() == title && pane.lines.deep_view() == lines
}

/// The right pane, which goes by the selected row: a service's log, a watcher's
/// output, or that of a run. `elapsed` is how long the shown run went, as text;
/// `max` lines fit.
pub open spec fn focused_pane(
    a: App,
    now: u64,
    elapsed: Seq<char>,
    max: nat,
    pane: Option<TextPane>,
) -> bool {
    match a.selection() {
        None => pane is Some && shows(
            pane->0,
            ui::text_line(" output "@, accent_bold()),
            seq![],
        ),
        Some(item) => match item.kind {
            ItemKind::Container => pane is Some && match a.lifecycle_run {
                Some(run) => shows(pane->0, run_title(run, elapsed), buffer_tail(run.buffer@, max)),
                None => shows(pane->0, idle_title(item.name@, "  idle"@), idle_container_body()),
            },
            ItemKind::Service => {
                &&& pane is Some == a.services@.contains_key(item.name@)
                &&& pane is Some ==> shows(
                    pane->0,
                    service_title(a.services@[item.name@]),
                    service_body(a.services@[item.name@], max),
                )
            },
            ItemKind::Watcher => {
                &&& pane is Some == a.watchers@.contains_key(item.name@)
                &&& pane is Some ==> shows(
                    pane->0,
                    watcher_title(a.watchers@[item.name@], now, elapsed),
                    watcher_body(a.watchers@[item.name@], max),
                )
            },
            _ => pane is Some && match a.selection_run() {
                Some(run) => shows(pane->0, run_title(run, elapsed), buffer_tail(run.buffer@, max)),
                None => shows(
                    pane->0,
                    idle_title(item.name@, "  not yet run"@),
                    seq![ui::text_line("press enter to run"@, faint())],
                ),
            },
        },
    }
}

/// The right pane.
pub fn render_focused_buffer(a: &App, now: u64, elapsed: &str, max: usize) -> (res: Option<TextPane>)
    ensures
        focused_pane(*a, now, elapsed@, max as nat, res),
{
    let item = match a.selected_item() {
        Some(item) => item,
        None => {
            let mut title = Line::new();
            title.push(" output ", accent_bold());
            return Some(TextPane { title, lines: no_lines() });
        },
    };
    match item.kind {
        ItemKind::Container => match a.lifecycle_run() {
            Some(run) => Some(render_run_buffer(run, elapsed, max)),
            None => Some(render_idle_container(item)),
        },
        ItemKind::Service => match a.selected_service() {
            Some(pane) => Some(render_service_logs(pane, max)),
            None => None,
        },
        ItemKind::Watcher => match a.selected_watcher() {
            Some(w) => Some(render_watcher(w, now, elapsed, max)),
            None => None,
        },
        _ => match a.selected_run() {
            Some(run) => Some(render_run_buffer(run, elapsed, max)),
            None => Some(render_idle_buffer(item)),
        },
    }
}

// ---------------------------------------------------------------------------
// Details
// ---------------------------------------------------------------------------
/// The name of a kind.
pub open spec fn kind_name(kind: ItemKind) -> Seq<char> {
    match kind {
        ItemKind::Container => "container"@,
        ItemKind::Service => "service"@,
        ItemKind::Watcher => "watcher"@,
        ItemKind::Recipe => "recipe"@,
        ItemKind::Script => "script"@,
    }
}

/// The name of a kind.
pub fn kind_label(kind: ItemKind) -> (res: &'static str)
    ensures
        res@ == kind_name(kind),
{
    match kind {
        ItemKind::Container => "container",
        ItemKind::Service => "service",
        ItemKind::Watcher => "watcher",
        ItemKind::Recipe => "recipe",
        ItemKind::Script => "script",
    }
}

/// A key and its value.
pub open spec fn kv_line(key: Seq<char>, value: Seq<char>) -> Seq<ui::SpanModel> {
    seq![
        ui::span("  "@, plain()),
        ui::span(text::padded_right(key, 14), faint()),
        ui::span(value, plain()),
    ]
}

fn kv(key: &str, value: &str) -> (res: Line)
    ensures
        res.deep_view() == kv_line(key@, value@),
{
    let mut line = Line::new();
    line.push("  ", plain());
    let padded = text::pad_right(key, 14);
    line.push(padded.as_str(), faint());
    line.push(value, plain());
    line
}

/// The line of a flag, present when it is set.
pub open spec fn flag_lines(key: Seq<char>, set: bool) -> Seq<Seq<ui::SpanModel>> {
    if set {
        seq![kv_line(key, "true"@)]
    } else {
        seq![]
    }
}

fn push_flag(lines: &mut Vec<Line>, key: &str, set: bool)
    ensures
        final(lines).deep_view() == old(lines).deep_view() + flag_lines(key@, set),
{
    let ghost before = lines.deep_view();
    if set {
        push_line(lines, kv(key, "true"));
    }
    assert(lines.deep_view() =~= before + flag_lines(key@, set));
}

/// The line of what must run first, present when there is anything.
pub open spec fn needs_lines(needs: Seq<Seq<char>>) -> Seq<Seq<ui::SpanModel>> {
    if needs.len() > 0 {
        seq![kv_line("needs"@, text::joined(needs, ", "@))]
    } else {
        seq![]
    }
}

fn push_needs(lines: &mut Vec<Line>, needs: &Vec<String>)
    ensures
        final(lines).deep_view() == old(lines).deep_view() + needs_lines(needs.deep_view()),
{
    let ghost before = lines.deep_view();
    assert(needs@.len() == needs.deep_view().len());
    if needs.len() > 0 {
        let all = text::join(needs, ", ");
        push_line(lines, kv("needs", all.as_str()));
    }
    assert(lines.deep_view() =~= before + needs_lines(needs.deep_view()));
}

/// The lines of the first `n` variables in the order of their names.
pub open spec fn env_lines(env: TextMap<String>, n: nat) -> Seq<Seq<ui::SpanModel>>
    decreases n,
{
    if n == 0 {
        seq![]
    } else {
        let key = env.keys()[n - 1];
        env_lines(env, (n - 1) as nat).push(kv_line("env."@ + key, env@[key]@))
    }
}

fn push_env(lines: &mut Vec<Line>, env: &TextMap<String>)
    ensures
        final(lines).deep_view() == old(lines).deep_view() + env_lines(*env, env.keys().len()),
{
    let ghost before = lines.deep_view();
    let n: usize = env.len();
    let mut i: usize = 0;
    assert(lines.deep_view() =~= before + env_lines(*env, 0));
    while i < n
        invariant
            i <= n == env.keys().len(),
            lines.deep_view() == before + env_lines(*env, i as nat),
        decreases n - i,
    {
        let ghost sofar = lines.deep_view();
        let key = concat("env.", env.key_at(i).as_str());
        push_line(lines, kv(key.as_str(), env.value_at(i).as_str()));
        assert(lines.deep_view() =~= before + env_lines(*env, (i + 1) as nat));
        i += 1;
    }
}

/// Where a command runs.
pub open spec fn place(service: Option<String>) -> Seq<char> {
    match service {
        Some(s) => s@,
        None => "host"@,
    }
}

fn place_line(service: &Option<String>) -> (res: Line)
    ensures
        res.deep_view() == kv_line("in"@, place(*service)),
{
    match service {
        Some(s) => kv("in", s.as_str()),
        None => kv("in", "host"),
    }
}

/// The details of a recipe.
pub open spec fn recipe_details(r: Recipe) -> Seq<Seq<ui::SpanModel>> {
    seq![kv_line("in"@, place(r.service))] + flag_lines("tty"@, r.tty) + flag_lines(
        "forward_args"@,
        r.forward_args,
    ) + flag_lines("parallel"@, r.parallel) + needs_lines(r.needs.deep_view()) + env_lines(
        r.env,
        r.env.keys().len(),
    )
}

/// The details of a recipe.
pub fn recipe_kv_lines(r: &Recipe) -> (res: Vec<Line>)
    ensures
        res.deep_view() == recipe_details(*r),
{
    let mut lines = no_lines();
    push_line(&mut lines, place_line(&r.service));
    assert(lines.deep_view() =~= seq![kv_line("in"@, place(r.service))]);
    push_flag(&mut lines, "tty", r.tty);
    push_flag(&mut lines, "forward_args", r.forward_args);
    push_flag(&mut lines, "parallel", r.parallel);
    push_needs(&mut lines, &r.needs);
    push_env(&mut lines, &r.env);
    lines
}

/// Where a script stands, as the details show it.
pub open spec fn script_place(path: Seq<char>) -> Seq<char> {
    match paths::file_name_of(path) {
        Some(f) => ".scaffl/commands/"@ + f,
        None => path,
    }
}

/// The details of a script.
pub open spec fn script_details(s: ScriptCommand) -> Seq<Seq<ui::SpanModel>> {
    seq![kv_line("in"@, place(s.service)), kv_line("path"@, script_place(s.path@))] + flag_lines(
        "tty"@,
        s.tty,
    ) + flag_lines("forward_args"@, s.forward_args) + needs_lines(s.needs.deep_view()) + env_lines(
        s.env,
        s.env.keys().len(),
    )
}

/// The details of a script.
pub fn script_kv_lines(s: &ScriptCommand) -> (res: Vec<Line>)
    ensures
        res.deep_view() == script_details(*s),
{
    let mut lines = no_lines();
    push_line(&mut lines, place_line(&s.service));
    let shown = match paths::file_name(s.path.as_str()) {
        Some(f) => concat(".scaffl/commands/", f.as_str()),
        None => s.path.as_str().to_owned(),
    };
    push_line(&mut lines, kv("path", shown.as_str()));
    assert(lines.deep_view() =~= seq![
        kv_line("in"@, place(s.service)),
        kv_line("path"@, script_place(s.path@)),
    ]);
    push_flag(&mut lines, "tty", s.tty);
    push_flag(&mut lines, "forward_args", s.forward_args);
    push_needs(&mut lines, &s.needs);
    push_env(&mut lines, &s.env);
    lines
}

/// The details of a watcher.
pub open spec fn watcher_details(w: WatcherPane) -> Seq<Seq<ui::SpanModel>> {
    seq![
        kv_line("recipe"@, w.recipe@),
        kv_line("globs"@, text::joined(w.globs.deep_view(), ", "@)),
        kv_line("debounce"@, text::digits(w.debounce_ms as nat) + " ms"@),
    ]
}

/// The details of a watcher.
pub fn watcher_kv_lines(w: &WatcherPane) -> (res: Vec<Line>)
    ensures
        res.deep_view() == watcher_details(*w),
{
    let mut lines = no_lines();
    push_line(&mut lines, kv("recipe", w.recipe.as_str()));
    let globs = text::join(&w.globs, ", ");
    push_line(&mut lines, kv("globs", globs.as_str()));
    let n = text::decimal(w.debounce_ms);
    let ms = concat(n.as_str(), " ms");
    push_line(&mut lines, kv("debounce", ms.as_str()));
    lines
}

/// The description of the selected row and its details.
pub open spec fn details_of(a: App, item: Item) -> (Option<Seq<char>>, Seq<Seq<ui::SpanModel>>) {
    let name = item.name@;
    if item.kind == ItemKind::Recipe && a.config.commands@.contains_key(name) {
        let r = a.config.commands@[name];
        (r.desc.deep_view(), recipe_details(r))
    } else if item.kind == ItemKind::Script && a.config.scripts@.contains_key(name) {
        let s = a.config.scripts@[name];
        (s.desc.deep_view(), script_details(s))
    } else if item.kind == ItemKind::Watcher && a.watchers@.contains_key(name) {
        (None, watcher_details(a.watchers@[name]))
    } else {
        (None, seq![])
    }
}

/// The wrapped lines of a description.
pub open spec fn desc_lines(desc: Option<Seq<char>>, width: nat) -> Seq<Seq<ui::SpanModel>> {
    match desc {
        Some(d) => seq![ui::blank()] + wrapped(d, width).map_values(
            |t: Seq<char>| seq![ui::span("  "@, plain()), ui::span(t, fg(Color::Gray))],
        ),
        None => seq![],
    }
}

fn push_desc(lines: &mut Vec<Line>, desc: &Option<String>, width: usize)
    ensures
        final(lines).deep_view() == old(lines).deep_view() + desc_lines(
            desc.deep_view(),
            width as nat,
        ),
{
    let ghost before = lines.deep_view();
    match desc {
        Some(d) => {
            push_blank(lines);
            let chunks = wrap_words(d.as_str(), width);
            let ghost want = desc_lines(desc.deep_view(), width as nat);
            let mut i: usize = 0;
            assert(want.len() == chunks@.len() + 1) by {
                assert(chunks.deep_view().len() == chunks@.len());
            }
            assert(lines.deep_view() =~= before + want.take(1));
            while i < chunks.len()
                invariant
                    i <= chunks@.len(),
                    chunks.deep_view() == wrapped(d@, width as nat),
                    want == desc_lines(Some(d@), width as nat),
                    want.len() == chunks@.len() + 1,
                    lines.deep_view() == before + want.take(i + 1),
                decreases chunks@.len() - i,
            {
                let ghost sofar = lines.deep_view();
                assert(chunks.deep_view()[i as int] == chunks@[i as int]@);
                let mut line = Line::new();
                line.push("  ", plain());
                line.push(chunks[i].as_str(), fg(Color::Gray));
                assert(line.deep_view() =~= want[i + 1]);
                push_line(lines, line);
                assert(lines.deep_view() =~= before + want.take(i + 2));
                i += 1;
            }
            assert(want.take(i + 1) =~= want);
        },
        None => {
            assert(lines.deep_view() =~= before + desc_lines(desc.deep_view(), width as nat));
        },
    }
}

/// The heading of the details.
pub open spec fn details_head(item: Item) -> Seq<ui::SpanModel> {
    seq![
        ui::span("  "@, plain()),
        ui::span(item.name@, bold()),
        ui::span("  "@, plain()),
        ui::span(
            kind_name(item.kind),
            (Style {
                fg: Some(Color::DarkGray),
                bg: None,
                bold: false,
                italic: true,
                dim: false,
            }),
        ),
    ]
}

/// The details under the sidebar: the selected row's name and kind, its
/// description wrapped to `width`, and its settings.
pub open spec fn detail_lines(a: App, width: nat) -> Seq<Seq<ui::SpanModel>> {
    match a.selection() {
        None => seq![ui::text_line("  No commands defined."@, faint())],
        Some(item) => {
            let (desc, kvs) = details_of(a, item);
            seq![ui::blank(), details_head(item)] + desc_lines(desc, width) + if kvs.len() > 0 {
                seq![ui::blank()] + kvs
            } else {
                seq![]
            }
        },
    }
}

/// The details under the sidebar.
pub fn build_detail_lines(a: &App, width: usize) -> (res: Vec<Line>)
    ensures
        res.deep_view() == detail_lines(*a, width as nat),
{
    let mut lines = no_lines();
    let item = match a.selected_item() {
        Some(item) => item,
        None => {
            push_text(&mut lines, "  No commands defined.", faint());
            return lines;
        },
    };
    push_blank(&mut lines);
    let mut head = Line::new();
    head.push("  ", plain());
    head.push(item.name.as_str(), bold());
    head.push("  ", plain());
    head.push(
        kind_label(item.kind),
        Style { fg: Some(Color::DarkGray), bg: None, bold: false, italic: true, dim: false },
    );
    assert(head.deep_view() =~= details_head(*item));
    push_line(&mut lines, head);
    let ghost top = seq![ui::blank(), details_head(*item)];
    assert(lines.deep_view() =~= top);
    let nothing: Option<String> = None;
    let kvs = if let Some(r) = a.selected_recipe() {
        push_desc(&mut lines, &r.desc, width);
        recipe_kv_lines(r)
    } else if let Some(s) = a.selected_script() {
        push_desc(&mut lines, &s.desc, width);
        script_kv_lines(s)
    } else if let Some(w) = a.selected_watcher() {
        push_desc(&mut lines, &nothing, width);
        watcher_kv_lines(w)
    } else {
        push_desc(&mut lines, &nothing, width);
        no_lines()
    };
    let ghost want = details_of(*a, *item);
    assert(lines.deep_view() == top + desc_lines(want.0, width as nat));
    assert(kvs.deep_view() == want.1);
    assert(kvs@.len() == kvs.deep_view().len());
    if kvs.len() > 0 {
        push_blank(&mut lines);
        extend_lines(&mut lines, kvs);
    }
    assert(lines.deep_view() =~= detail_lines(*a, width as nat));
    lines
}

/// A line is broken only where the next word would not fit on it any more.
pub proof fn law_lines_are_broken_late(s: Seq<char>, width: nat, i: int)
    requires
        width > 0,
        0 <= i < wrapped(s, width).len() - 1,
    ensures
        breaks_late(text::words_of(s), wrapped(s, width)[i], wrapped(s, width)[i + 1], width),
{
    let words = text::words_of(s);
    text::lemma_words_not_empty(s);
    lemma_breaks_late(words, words.len(), width);
    let end = words_wrapped(words, words.len(), width);
    let all = end.0.push(end.1);
    assert(wrapped(s, width) =~= end.0.push(end.1) || wrapped(s, width) == end.0);
    assert(all[i] == wrapped(s, width)[i] && all[i + 1] == wrapped(s, width)[i + 1]);
}

/// Whether `next` begins with a word that does not fit behind `line`.
pub open spec fn breaks_late(
    words: Seq<Seq<char>>,
    line: Seq<char>,
    next: Seq<char>,
    width: nat,
) -> bool {
    exists|k: int|
        0 <= k < words.len() && (#[trigger] words[k]).is_prefix_of(next) && text::utf8_len(line) + 1
            + text::utf8_len(words[k]) > width
}

proof fn lemma_breaks_late(words: Seq<Seq<char>>, n: nat, width: nat)
    requires
        n <= words.len(),
        forall|i: int| 0 <= i < words.len() ==> (#[trigger] words[i]).len() > 0,
    ensures
        ({
            let w = words_wrapped(words, n, width);
            let all = w.0.push(w.1);
            &&& n == 0 ==> w.0.len() == 0 && w.1.len() == 0
            &&& n > 0 ==> w.1.len() > 0
            &&& forall|i: int|
                #![trigger all[i]]
                0 <= i < all.len() - 1 ==> breaks_late(words, all[i], all[i + 1], width)
        }),
    decreases n,
{
    if n > 0 {
        let m = (n - 1) as nat;
        lemma_breaks_late(words, m, width);
        let b = words_wrapped(words, m, width);
        let before = b.0.push(b.1);
        let w = words_wrapped(words, n, width);
        let all = w.0.push(w.1);
        let word = words[m as int];
        assert forall|i: int| #![trigger all[i]] 0 <= i < all.len() - 1 implies breaks_late(
            words,
            all[i],
            all[i + 1],
            width,
        ) by {
            if b.1.len() == 0 {
                assert(false);
            } else if text::utf8_len(b.1) + 1 + text::utf8_len(word) <= width {
                assert(before[i] == all[i]);
                if i + 1 < b.0.len() {
                    assert(before[i + 1] == all[i + 1]);
                } else {
                    assert(before[i + 1] == b.1);
                    let k = choose|k: int|
                        0 <= k < words.len() && (#[trigger] words[k]).is_prefix_of(before[i + 1])
                            && text::utf8_len(before[i]) + 1 + text::utf8_len(words[k]) > width;
                    assert(all[i + 1] == b.1.push(' ') + word);
                    let len = words[k].len() as int;
                    assert(all[i + 1].subrange(0, len) =~= b.1.subrange(0, len));
                    assert(words[k].is_prefix_of(all[i + 1]));
                }
            } else if i < b.0.len() {
                assert(before[i] == all[i] && before[i + 1] == all[i + 1]);
            } else {
                assert(all[i] == b.1 && all[i + 1] == word);
                assert(word.subrange(0, word.len() as int) =~= word);
                assert(words[m as int].is_prefix_of(all[i + 1]));
            }
        }
    }
}

/// A changed file's row has its letter, in the colour of what happened to it, and its
/// path, marked where it is selected.
pub proof fn law_file_rows_say_what_happened(f: diff::FileModel, selected: bool)
    ensures
        ({
            let row = file_row(f, selected);
            &&& row.len() == 2
            &&& row[0].text == seq![' ', f.status.letter_char(), ' '] && row[1].text == f.path
            &&& row[1].style == highlight() <==> selected
            &&& row[0].style.fg == Some(
                match f.status {
                    DiffStatus::Modified => Color::Yellow,
                    DiffStatus::Added => Color::Green,
                    DiffStatus::Untracked => Color::Green,
                    DiffStatus::Deleted => Color::Red,
                    DiffStatus::Renamed => Color::Cyan,
                    DiffStatus::Other => Color::DarkGray,
                },
            )
        }),
{
    reveal_strlit(" ");
    assert(" "@.push(f.status.letter_char()).push(' ') =~= seq![' ', f.status.letter_char(), ' ']);
}

/// The file list says that it loads, that loading failed and why, that nothing changed,
/// or has a row for every changed file.
pub proof fn law_the_file_list_shows_every_file(d: diff::DiffState)
    ensures
        ({
            let lines = diff_files_body(d);
            &&& !d.loaded ==> lines.len() == 1 && lines[0][0].text == "  loading…"@
            &&& d.loaded && d.error is Some ==> lines.len() == 2 && lines[0][0].text == "  error"@
                && lines[1][0].text == "  "@ + d.error->0@
            &&& d.loaded && d.error is None && d.files@.len() == 0 ==> lines.len() == 4
                && lines[1][0].text == "  no changes — working tree clean"@ && lines[3][0].text
                == "  press r to refresh"@
            &&& d.loaded && d.error is None && d.files@.len() > 0 ==> lines.len() == d.files@.len()
                && forall|i: int|
                0 <= i < d.files@.len() ==> #[trigger] lines[i] == file_row(
                    d.files@[i].deep_view(),
                    i == d.selected,
                )
        }),
{
}

/// Added lines are green, removed ones red, hunk headers cyan, file headers grey, and
/// the others plain.
pub proof fn law_diff_lines_have_their_colours(kind: DiffLineKind)
    ensures
        diff_line_style(kind).fg == match kind {
            DiffLineKind::Added => Some(Color::Green),
            DiffLineKind::Removed => Some(Color::Red),
            DiffLineKind::Hunk => Some(Color::Cyan),
            DiffLineKind::Header => Some(Color::DarkGray),
            DiffLineKind::Context => None,
        },
{
}

/// The diff pane shows the selected file's diff from a line on, or its last lines where
/// it has not been moved; a diff that is not there loads, and without a file one is to
/// be picked.
pub proof fn law_the_diff_pane_shows_the_selected_file(
    d: diff::DiffState,
    top: Option<usize>,
    max: nat,
)
    ensures
        ({
            let body = diff_body(d, top, max);
            let picked = d.selected < d.files@.len();
            let path = d.files@[d.selected as int].path@;
            let lines = d.cache@[path]@;
            let n = lines.len();
            let start = if top is Some {
                if top->0 < n {
                    top->0 as int
                } else {
                    n as int
                }
            } else if n > max {
                n - max
            } else {
                0
            };
            &&& picked && d.cache@.contains_key(path) ==> body == Seq::new(
                (n - start) as nat,
                |i: int|
                    ui::text_line(lines[start + i].text@, diff_line_style(lines[start + i].kind)),
            )
            &&& picked && !d.cache@.contains_key(path) ==> body.len() == 1 && body[0][0].text
                == "loading diff…"@
            &&& !picked ==> body.len() == 1 && body[0][0].text == "select a file on the left"@
            &&& picked ==> diff_body_title(d)[1].text == "  diff · "@ + path
            &&& !picked ==> diff_body_title(d)[1].text == "  diff"@
        }),
{
    let picked = d.selected < d.files@.len();
    let path = d.files@[d.selected as int].path@;
    if picked && d.cache@.contains_key(path) {
        let lines = d.cache@[path]@;
        let n = lines.len();
        let start = diff_start(n, top, max);
        assert(diff_body(d, top, max) =~= Seq::new(
            (n - start) as nat,
            |i: int| ui::text_line(lines[start + i].text@, diff_line_style(lines[start + i].kind)),
        ));
    }
}

/// The top bar names the project and counts services and watchers where there are any.
pub proof fn law_the_top_bar_names_the_project(a: App)
    ensures
        ({
            let bar = top_bar(a);
            let s = a.services.keys().len();
            let w = a.watchers.keys().len();
            &&& a.config.project.name is Some ==> bar[2].text == a.config.project.name->0@
            &&& a.config.project.name is None ==> bar[2].text == "scaffl"@
            &&& s == 0 && w == 0 ==> bar.len() == 3
            &&& s > 0 || w > 0 ==> bar.len() == 4 && bar[3].text == "  │  "@ + text::digits(s)
                + " services, "@ + text::digits(w) + " watchers"@
        }),
{
}

/// The colour of a run: grey before the first, yellow while it goes on, green where it
/// ended with zero, red where it ended otherwise.
pub proof fn law_runs_have_their_colours(run: Option<RunState>)
    ensures
        run is None ==> run_color(run) == Color::DarkGray,
        run is Some && run->0.exit_code is None && run->0.error is None ==> run_color(run)
            == Color::Yellow,
        run is Some && run->0.exit_code == Some(0i32) ==> run_color(run) == Color::Green,
        run is Some && run->0.exit_code is Some && run->0.exit_code->0 != 0 ==> run_color(run)
            == Color::Red,
        run is Some && run->0.exit_code is None && run->0.error is Some ==> run_color(run)
            == Color::Red,
{
}

/// The colour of a watcher: cyan while its recipe runs, yellow in the window, and idle by
/// how the last run ended.
pub proof fn law_watchers_have_their_colours(
    watchers: Map<Seq<char>, WatcherPane>,
    name: Seq<char>,
)
    ensures
        ({
            let color = watcher_color(watchers, name);
            let w = watchers[name];
            let known = watchers.contains_key(name);
            let idle = known && w.state == WatcherState::Idle;
            &&& !known ==> color == Color::DarkGray
            &&& known && w.state == WatcherState::Running ==> color == Color::Cyan
            &&& known && w.state == WatcherState::Debouncing ==> color == Color::Yellow
            &&& idle && w.last_exit_code is None ==> color == Color::DarkGray
            &&& idle && w.last_exit_code == Some(0i32) ==> color == Color::Green
            &&& idle && w.last_exit_code is Some && w.last_exit_code->0 != 0 ==> color
                == Color::Red
        }),
{
}

/// A row of the sidebar has the glyph of its kind, in the colour of its own state, its
/// name, and a tag where its service is no container.
pub proof fn law_sidebar_rows_show_their_state(a: App, item: app::ItemModel)
    ensures
        ({
            let row = item_row(a, item);
            let badge = terminals::badge_of(*a.config, item.name);
            let tagged = item.kind == ItemKind::Service && badge is Some;
            &&& row[1].text == item.name
            &&& row[0].text == match item.kind {
                ItemKind::Container => "●"@,
                ItemKind::Service => "●"@,
                ItemKind::Watcher => "◇"@,
                ItemKind::Recipe => "▸"@,
                ItemKind::Script => "▸"@,
            } + " "@
            &&& row[0].style.fg == Some(
                match item.kind {
                    ItemKind::Container => run_color(a.lifecycle_run),
                    ItemKind::Service => ui::service_color(a.services@, item.name),
                    ItemKind::Watcher => watcher_color(a.watchers@, item.name),
                    _ => run_color(app::run_of(a.runs@, item.kind, item.name)),
                },
            )
            &&& tagged ==> row.len() == 4 && row[3].text == badge->0
            &&& !tagged ==> row.len() == 2
        }),
{
}

/// A group has the rows of its kinds, in their order, and no others.
pub proof fn law_groups_hold_their_kinds(items: Vec<Item>, group: Group)
    ensures
        lists::selects(
            group_items(items.deep_view(), group, items@.len()),
            |i: int| items@[i].deep_view(),
            |i: int|
                match group {
                    Group::Container => items@[i].kind == ItemKind::Container,
                    Group::Services => items@[i].kind == ItemKind::Service,
                    Group::Watchers => items@[i].kind == ItemKind::Watcher,
                    Group::Commands => items@[i].kind == ItemKind::Recipe || items@[i].kind
                        == ItemKind::Script,
                },
            items@.len(),
        ),
{
    lemma_group_items(items, group, items@.len());
}

proof fn lemma_group_items(items: Vec<Item>, group: Group, n: nat)
    requires
        n <= items@.len(),
    ensures
        lists::selects(
            group_items(items.deep_view(), group, n),
            |i: int| items@[i].deep_view(),
            |i: int|
                match group {
                    Group::Container => items@[i].kind == ItemKind::Container,
                    Group::Services => items@[i].kind == ItemKind::Service,
                    Group::Watchers => items@[i].kind == ItemKind::Watcher,
                    Group::Commands => items@[i].kind == ItemKind::Recipe || items@[i].kind
                        == ItemKind::Script,
                },
            n,
        ),
    decreases n,
{
    let value = |i: int| items@[i].deep_view();
    let keep = |i: int|
        match group {
            Group::Container => items@[i].kind == ItemKind::Container,
            Group::Services => items@[i].kind == ItemKind::Service,
            Group::Watchers => items@[i].kind == ItemKind::Watcher,
            Group::Commands => items@[i].kind == ItemKind::Recipe || items@[i].kind
                == ItemKind::Script,
        };
    if n == 0 {
        lists::lemma_selects_none(value, keep);
    } else {
        let m = (n - 1) as nat;
        lemma_group_items(items, group, m);
        lists::lemma_selects_next(group_items(items.deep_view(), group, m), value, keep, m);
    }
}

/// A group is shown where it has rows, under its name and their number, one line for
/// each.
pub proof fn law_groups_are_shown_whole(a: App, group: Group, above: int, pane: Option<ListPane>)
    requires
        group_shown(a, group, above, pane),
        0 <= above,
    ensures
        ({
            let items = group_items(a.items.deep_view(), group, a.items@.len());
            let p = pane->0;
            let name = match group {
                Group::Container => "container"@,
                Group::Services => "services"@,
                Group::Watchers => "watchers"@,
                Group::Commands => "commands"@,
            };
            &&& pane is Some <==> items.len() > 0
            &&& pane is Some ==> p.title.deep_view() == ui::counted_title(name, items.len())
            &&& pane is Some ==> p.rows.deep_view() == Seq::new(
                items.len(),
                |i: int| item_row(a, items[i]),
            )
            &&& pane is Some ==> p.selected == ui::local_selection(
                a.selected as int,
                above,
                above + items.len(),
            )
        }),
{
    let items = group_items(a.items.deep_view(), group, a.items@.len());
    assert(items.map_values(|i: app::ItemModel| item_row(a, i)) =~= Seq::new(
        items.len(),
        |i: int| item_row(a, items[i]),
    ));
}

/// An output pane shows the last lines that fit, in order; what came as an error is red.
pub proof fn law_the_last_lines_are_shown(buf: Seq<CapturedLine>, max: nat)
    ensures
        ({
            let shown = buffer_tail(buf, max);
            let from = if buf.len() > max {
                buf.len() - max
            } else {
                0
            };
            &&& shown.len() == buf.len() - from
            &&& forall|i: int|
                0 <= i < shown.len() ==> (#[trigger] shown[i]).len() == 1 && shown[i][0].text
                    == buf[from + i].text@ && shown[i][0].style.fg == match buf[from + i].stream {
                    OutputStream::Stdout => None,
                    OutputStream::Stderr => Some(Color::Red),
                }
        }),
{
}

/// A duration below a minute is in seconds, a longer one in minutes and seconds.
pub proof fn law_long_runs_are_timed_in_minutes(secs: nat, nanos: int)
    ensures
        secs < 60 ==> duration_text(secs as int, nanos) == durations::seconds_text(
            secs as int,
            nanos,
        ),
        secs >= 60 ==> duration_text(secs as int, nanos) == durations::minutes_text(
            secs / 60,
            secs % 60,
        ),
{
}

/// The title of a run's pane is its name, how it stands and for how long it went.
pub proof fn law_run_titles_say_how_it_went(run: RunState, duration: Seq<char>)
    ensures
        ({
            let title = run_title(run, duration);
            &&& title.len() == 4 && title[1].text == run.name@
            &&& run.exit_code == Some(0i32) ==> title[3].text == "✓ exit 0 · "@ + duration + " "@
                && title[3].style.fg == Some(Color::Green)
            &&& run.exit_code is Some && run.exit_code->0 != 0 ==> title[3].text == "✗ exit "@
                + text::signed_digits(run.exit_code->0 as int) + " · "@ + duration + " "@
                && title[3].style.fg == Some(Color::Red)
            &&& run.exit_code is None && run.error is Some ==> title[3].text == "! "@
                + run.error->0@ + " · "@ + duration + " "@ && title[3].style.fg == Some(Color::Red)
            &&& run.exit_code is None && run.error is None ==> title[3].text == "● running · "@
                + duration + " "@ && title[3].style.fg == Some(Color::Yellow)
        }),
{
}

/// The pane of a service says how the service does, and shows its log, that none came
/// yet, or why there is none.
pub proof fn law_service_panes_show_the_log(pane: ServicePane, max: nat)
    ensures
        ({
            let title = service_title(pane);
            let body = service_body(pane, max);
            let broken = pane.tail_error is Some;
            &&& title.len() == 4 && title[1].text == pane.name@
            &&& broken ==> title[3].text == "✗ unavailable "@
            &&& !broken ==> title[3].text == match pane.status {
                Some(ServiceStatus::Running) => "● running "@,
                Some(ServiceStatus::Stopped) => "○ stopped "@,
                Some(ServiceStatus::Missing) => "✗ missing "@,
                None => "? unknown "@,
            }
            &&& broken ==> body.len() == 4 && body[0][0].text == "log tail unavailable: "@
                + pane.tail_error->0@
            &&& !broken && pane.buffer@.len() == 0 ==> body.len() == 1 && body[0][0].text
                == "waiting for output…"@
            &&& !broken && pane.buffer@.len() > 0 ==> body == buffer_tail(pane.buffer@, max)
        }),
{
}

/// The pane of a watcher says where it stands in its cycle, and shows what the last run
/// printed or what it waits for.
pub proof fn law_watcher_panes_show_the_last_run(
    w: WatcherPane,
    now: u64,
    seconds: Seq<char>,
    max: nat,
)
    requires
        max > 0,
    ensures
        ({
            let title = watcher_title(w, now, seconds);
            let body = watcher_body(w, max);
            let idle = w.state == WatcherState::Idle;
            let code = w.last_exit_code;
            &&& title.len() == 4 && title[1].text == w.name@
            &&& idle && code is None ==> title[3].text == "○ idle "@
            &&& idle && code == Some(0i32) ==> title[3].text == "✓ idle (last 0) "@
            &&& idle && code is Some && code->0 != 0 ==> title[3].text == "✗ idle (last "@
                + text::signed_digits(code->0 as int) + ") "@
            &&& w.state == WatcherState::Debouncing ==> title[3].text == "◐ cooldown "@
                + text::digits(watchers::window_left(w.pending_until, now) as nat) + " ms "@
            &&& w.state == WatcherState::Running ==> title[3].text == "● running "@ + seconds
                + "s "@
            &&& w.buffer@.len() > 0 ==> body == buffer_tail(w.buffer@, max)
            &&& w.buffer@.len() == 0 ==> body.len() == 1
            &&& w.buffer@.len() == 0 && idle && code is None ==> body[0][0].text
                == "no run yet — edit a watched file"@
            &&& w.buffer@.len() == 0 && idle && code is Some ==> body[0][0].text
                == "idle — buffer cleared on next run"@
            &&& w.buffer@.len() == 0 && w.state == WatcherState::Debouncing ==> body[0][0].text
                == "cooldown…"@
            &&& w.buffer@.len() == 0 && w.state == WatcherState::Running ==> body[0][0].text
                == "starting…"@
        }),
{
}

/// The right pane goes by the selected row: a service's log, a watcher's output, that of
/// the lifecycle run on the container row, and that of the row's own run on the others.
pub proof fn law_the_right_pane_goes_by_the_selected_row(
    a: App,
    now: u64,
    elapsed: Seq<char>,
    max: nat,
    pane: Option<TextPane>,
)
    requires
        focused_pane(a, now, elapsed, max, pane),
        a.selected < a.items@.len(),
    ensures
        ({
            let item = a.items@[a.selected as int];
            let name = item.name@;
            let title = pane->0.title.deep_view();
            let lines = pane->0.lines.deep_view();
            let command = item.kind == ItemKind::Recipe || item.kind == ItemKind::Script;
            let run = app::run_of(a.runs@, item.kind, name);
            &&& item.kind == ItemKind::Service && a.services@.contains_key(name) ==> pane is Some
                && title == service_title(a.services@[name]) && lines == service_body(
                a.services@[name],
                max,
            )
            &&& item.kind == ItemKind::Watcher && a.watchers@.contains_key(name) ==> pane is Some
                && title == watcher_title(a.watchers@[name], now, elapsed) && lines == watcher_body(
                a.watchers@[name],
                max,
            )
            &&& item.kind == ItemKind::Container && a.lifecycle_run is Some ==> pane is Some
                && title == run_title(a.lifecycle_run->0, elapsed) && lines == buffer_tail(
                a.lifecycle_run->0.buffer@,
                max,
            )
            &&& item.kind == ItemKind::Container && a.lifecycle_run is None ==> pane is Some
                && title[1].text == name && title[2].text == "  idle"@ && lines[0][0].text
                == "no lifecycle action has run yet"@ && lines[2][0].text
                == "U up all · D down all · R restart all · S stop all"@
            &&& command && run is Some ==> pane is Some && title == run_title(run->0, elapsed)
                && lines == buffer_tail(run->0.buffer@, max)
            &&& command && run is None ==> pane is Some && title[1].text == name && title[2].text
                == "  not yet run"@ && lines[0][0].text == "press enter to run"@
        }),
{
}

/// A setting is shown as its key, padded, and its value; one that is off or empty is not
/// shown.
pub proof fn law_settings_are_shown_where_they_say_something(
    key: Seq<char>,
    value: Seq<char>,
    needs: Seq<Seq<char>>,
)
    ensures
        kv_line(key, value).len() == 3,
        kv_line(key, value)[1].text == text::padded_right(key, 14),
        kv_line(key, value)[2].text == value,
        flag_lines(key, true) == seq![kv_line(key, "true"@)],
        flag_lines(key, false).len() == 0,
        needs.len() > 0 ==> needs_lines(needs) == seq![
            kv_line("needs"@, text::joined(needs, ", "@)),
        ],
        needs.len() == 0 ==> needs_lines(needs).len() == 0,
{
}

/// Every variable is shown with its value, in the order of the names.
pub proof fn law_every_variable_is_shown(env: TextMap<String>, n: nat, i: int)
    requires
        0 <= i < n <= env.keys().len(),
    ensures
        env_lines(env, n).len() == n,
        env_lines(env, n)[i] == kv_line("env."@ + env.keys()[i], env@[env.keys()[i]]@),
    decreases n,
{
    let m = (n - 1) as nat;
    if i < m {
        law_every_variable_is_shown(env, m, i);
    } else if m > 0 {
        law_every_variable_is_shown(env, m, 0);
    } else {
        assert(env_lines(env, 0).len() == 0);
    }
}

/// The details of a recipe are where it runs, each flag that is set, what must run
/// first, and its variables; those of a script also say where it stands.
pub proof fn law_details_show_every_setting(r: Recipe, s: ScriptCommand)
    ensures
        ({
            let flag = |key: Seq<char>, set: bool|
                if set {
                    seq![kv_line(key, "true"@)]
                } else {
                    Seq::<Seq<ui::SpanModel>>::empty()
                };
            let host = |service: Option<String>|
                if service is Some {
                    service->0@
                } else {
                    "host"@
                };
            &&& recipe_details(r) == seq![kv_line("in"@, host(r.service))] + flag("tty"@, r.tty)
                + flag("forward_args"@, r.forward_args) + flag("parallel"@, r.parallel)
                + needs_lines(r.needs.deep_view()) + env_lines(r.env, r.env.keys().len())
            &&& script_details(s) == seq![
                kv_line("in"@, host(s.service)),
                kv_line(
                    "path"@,
                    match paths::file_name_of(s.path@) {
                        Some(f) => ".scaffl/commands/"@ + f,
                        None => s.path@,
                    },
                ),
            ] + flag("tty"@, s.tty) + flag("forward_args"@, s.forward_args) + needs_lines(
                s.needs.deep_view(),
            ) + env_lines(s.env, s.env.keys().len())
        }),
{
}

/// The details of a watcher are its recipe, its globs and its window.
pub proof fn law_watcher_details_show_recipe_and_globs(w: WatcherPane)
    ensures
        watcher_details(w).len() == 3,
        watcher_details(w)[0] == kv_line("recipe"@, w.recipe@),
        watcher_details(w)[1] == kv_line("globs"@, text::joined(w.globs.deep_view(), ", "@)),
        watcher_details(w)[2] == kv_line("debounce"@, text::digits(w.debounce_ms as nat) + " ms"@),
{
}

/// The details name the selected row and its kind, then describe it, then list its
/// settings behind a blank line.
pub proof fn law_details_describe_the_selected_row(a: App, width: nat)
    requires
        a.selected < a.items@.len(),
    ensures
        ({
            let item = a.items@[a.selected as int];
            let name = item.name@;
            let lines = detail_lines(a, width);
            let recipe = item.kind == ItemKind::Recipe && a.config.commands@.contains_key(name);
            let script = item.kind == ItemKind::Script && a.config.scripts@.contains_key(name);
            let watcher = item.kind == ItemKind::Watcher && a.watchers@.contains_key(name);
            let r = a.config.commands@[name];
            let s = a.config.scripts@[name];
            &&& lines.len() >= 2 && lines[0].len() == 0 && lines[1][1].text == name
            &&& lines[1][3].text == match item.kind {
                ItemKind::Container => "container"@,
                ItemKind::Service => "service"@,
                ItemKind::Watcher => "watcher"@,
                ItemKind::Recipe => "recipe"@,
                ItemKind::Script => "script"@,
            }
            &&& recipe ==> lines.skip(2) == desc_lines(r.desc.deep_view(), width) + (seq![
                ui::blank(),
            ] + recipe_details(r))
            &&& script ==> lines.skip(2) == desc_lines(s.desc.deep_view(), width) + (seq![
                ui::blank(),
            ] + script_details(s))
            &&& watcher ==> lines.skip(2) == seq![ui::blank()] + watcher_details(a.watchers@[name])
            &&& !recipe && !script && !watcher ==> lines.len() == 2
        }),
{
    let item = a.items@[a.selected as int];
    let lines = detail_lines(a, width);
    let (desc, kvs) = details_of(a, item);
    let head = seq![ui::blank(), details_head(item)];
    let tail = desc_lines(desc, width) + if kvs.len() > 0 {
        seq![ui::blank()] + kvs
    } else {
        seq![]
    };
    assert(lines =~= head + tail);
    assert(lines.skip(2) =~= tail);
}

/// A description stands behind a blank line, wrapped, with every line indented.
pub proof fn law_descriptions_are_wrapped(desc: Option<Seq<char>>, width: nat)
    ensures
        ({
            let lines = desc_lines(desc, width);
            let parts = wrapped(desc->0, width);
            &&& desc is None ==> lines.len() == 0
            &&& desc is Some ==> lines.len() == parts.len() + 1 && lines[0].len() == 0 && forall|
                i: int,
            |
                0 <= i < parts.len() ==> (#[trigger] lines[i + 1]).len() == 2 && lines[i + 1][0].text
                    == "  "@ && lines[i + 1][1].text == parts[i]
        }),
{
}

} // verus!
