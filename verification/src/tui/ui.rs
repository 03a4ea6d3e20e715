//! What the dashboard shows, as styled text.
//!
//! Every function here turns state into lines of styled spans; the event loop
//! paints them.
use crate::container::ServiceStatus;
use crate::text;
use crate::text::{concat, concat3};
use crate::tui::app::App;
use crate::tui::services::ServicePane;
use crate::tui::terminals;
use crate::tui::terminals::{PanePreview, TerminalsRow, TmuxWindow};
use vstd::prelude::*;

verus! {

/// The colours in use.
#[derive(Debug, Clone, Copy, PartialEq, Eq, Structural)]
pub enum Color {
    Black,
    Red,
    Green,
    Yellow,
    Cyan,
    Gray,
    DarkGray,
    White,
}

/// How a span looks.
#[derive(Debug, Clone, Copy, PartialEq, Eq, Structural)]
pub struct Style {
    pub fg: Option<Color>,
    pub bg: Option<Color>,
    pub bold: bool,
    pub italic: bool,
    pub dim: bool,
}

/// The terminal's own style.
#[verifier::allow_in_spec]
pub fn plain() -> (res: Style)
    returns
        (Style { fg: None, bg: None, bold: false, italic: false, dim: false }),
{
    Style { fg: None, bg: None, bold: false, italic: false, dim: false }
}

/// Text in a colour.
#[verifier::allow_in_spec]
pub fn fg(c: Color) -> (res: Style)
    returns
        (Style { fg: Some(c), bg: None, bold: false, italic: false, dim: false }),
{
    Style { fg: Some(c), bg: None, bold: false, italic: false, dim: false }
}

/// Bold text in a colour.
#[verifier::allow_in_spec]
pub fn fg_bold(c: Color) -> (res: Style)
    returns
        (Style { fg: Some(c), bg: None, bold: true, italic: false, dim: false }),
{
    Style { fg: Some(c), bg: None, bold: true, italic: false, dim: false }
}

/// Bold text.
#[verifier::allow_in_spec]
pub fn bold() -> (res: Style)
    returns
        (Style { fg: None, bg: None, bold: true, italic: false, dim: false }),
{
    Style { fg: None, bg: None, bold: true, italic: false, dim: false }
}

/// Dark grey text.
#[verifier::allow_in_spec]
pub fn faint() -> (res: Style)
    returns
        fg(Color::DarkGray),
{
    fg(Color::DarkGray)
}

/// The accent of titles and key hints.
#[verifier::allow_in_spec]
pub fn accent() -> (res: Style)
    returns
        fg(Color::Cyan),
{
    fg(Color::Cyan)
}

/// The bold accent of titles and key hints.
#[verifier::allow_in_spec]
pub fn accent_bold() -> (res: Style)
    returns
        fg_bold(Color::Cyan),
{
    fg_bold(Color::Cyan)
}

/// A selected row.
#[verifier::allow_in_spec]
pub fn highlight() -> (res: Style)
    returns
        (Style {
            fg: Some(Color::Black),
            bg: Some(Color::Cyan),
            bold: true,
            italic: false,
            dim: false,
        }),
{
    Style {
        fg: Some(Color::Black),
        bg: Some(Color::Cyan),
        bold: true,
        italic: false,
        dim: false,
    }
}

/// A run of text in one style.
#[derive(Debug, PartialEq, Eq)]
pub struct Span {
    pub text: String,
    pub style: Style,
}

/// What a [`Span`] says.
pub ghost struct SpanModel {
    pub text: Seq<char>,
    pub style: Style,
}

impl DeepView for Span {
    type V = SpanModel;

    open spec fn deep_view(&self) -> SpanModel {
        SpanModel { text: self.text@, style: self.style }
    }
}

/// Text in a style.
pub open spec fn span(text: Seq<char>, style: Style) -> SpanModel {
    SpanModel { text, style }
}

/// A line of spans.
#[derive(Debug, PartialEq, Eq)]
pub struct Line {
    pub spans: Vec<Span>,
}

impl DeepView for Line {
    type V = Seq<SpanModel>;

    open spec fn deep_view(&self) -> Seq<SpanModel> {
        self.spans.deep_view()
    }
}

impl Line {
    /// The empty line.
    pub fn new() -> (res: Self)
        ensures
            res.deep_view() == Seq::<SpanModel>::empty(),
    {
        let res = Line { spans: Vec::new() };
        assert(res.deep_view() =~= Seq::<SpanModel>::empty());
        res
    }

    /// Appends text in a style.
    pub fn push(&mut self, text: &str, style: Style)
        ensures
            final(self).deep_view() == old(self).deep_view().push(span(text@, style)),
    {
        let ghost before = self.deep_view();
        self.spans.push(Span { text: text.to_owned(), style });
        assert(self.deep_view() =~= before.push(span(text@, style)));
    }
}

/// A list with a title and possibly a selected row.
#[derive(Debug, PartialEq, Eq)]
pub struct ListPane {
    pub title: Line,
    pub rows: Vec<Line>,
    pub selected: Option<usize>,
}

/// Text with a title.
#[derive(Debug, PartialEq, Eq)]
pub struct TextPane {
    pub title: Line,
    pub lines: Vec<Line>,
}

/// The line of one text in a style.
pub open spec fn text_line(text: Seq<char>, style: Style) -> Seq<SpanModel> {
    seq![span(text, style)]
}

/// The line without text.
pub open spec fn blank() -> Seq<SpanModel> {
    seq![]
}

pub(crate) fn push_line(lines: &mut Vec<Line>, line: Line)
    ensures
        final(lines).deep_view() == old(lines).deep_view().push(line.deep_view()),
{
    let ghost before = lines.deep_view();
    lines.push(line);
    assert(lines.deep_view() =~= before.push(line.deep_view()));
}

pub(crate) fn push_text(lines: &mut Vec<Line>, text: &str, style: Style)
    ensures
        final(lines).deep_view() == old(lines).deep_view().push(text_line(text@, style)),
{
    let mut line = Line::new();
    line.push(text, style);
    push_line(lines, line);
}

pub(crate) fn push_blank(lines: &mut Vec<Line>)
    ensures
        final(lines).deep_view() == old(lines).deep_view().push(blank()),
{
    push_line(lines, Line::new());
}

pub(crate) fn no_lines() -> (res: Vec<Line>)
    ensures
        res.deep_view() == Seq::<Seq<SpanModel>>::empty(),
{
    let res: Vec<Line> = Vec::new();
    assert(res.deep_view() =~= Seq::<Seq<SpanModel>>::empty());
    res
}

pub(crate) fn extend_lines(lines: &mut Vec<Line>, more: Vec<Line>)
    ensures
        final(lines).deep_view() == old(lines).deep_view() + more.deep_view(),
{
    let ghost before = lines.deep_view();
    let ghost added = more.deep_view();
    let mut rest = more;
    lines.append(&mut rest);
    assert(lines.deep_view() =~= before + added);
}

// ---------------------------------------------------------------------------
// Titles
// ---------------------------------------------------------------------------
/// A group's title with its number of rows.
pub open spec fn counted_title(label: Seq<char>, count: nat) -> Seq<SpanModel> {
    seq![
        span(" "@, plain()),
        span(label, accent_bold()),
        span(" ("@ + text::digits(count) + ") "@, faint()),
    ]
}

pub(crate) fn counted_title_line(label: &str, count: usize) -> (res: Line)
    ensures
        res.deep_view() == counted_title(label@, count as nat),
{
    let mut line = Line::new();
    line.push(" ", plain());
    line.push(label, accent_bold());
    let n = text::decimal(count as u64);
    let tail = concat3(" (", n.as_str(), ") ");
    line.push(tail.as_str(), faint());
    line
}

/// A modal's title.
pub open spec fn modal_title(label: Seq<char>) -> Seq<SpanModel> {
    seq![span(" "@, plain()), span(label, accent_bold()), span(" "@, plain())]
}

pub(crate) fn modal_title_line(label: &str) -> (res: Line)
    ensures
        res.deep_view() == modal_title(label@),
{
    let mut line = Line::new();
    line.push(" ", plain());
    line.push(label, accent_bold());
    line.push(" ", plain());
    line
}

// ---------------------------------------------------------------------------
// Terminals view
// ---------------------------------------------------------------------------
/// The notice shown when tmux is missing.
pub open spec fn tmux_missing() -> Seq<Seq<SpanModel>> {
    seq![
        blank(),
        text_line("  tmux is required for the terminals view"@, fg(Color::Red)),
        blank(),
        text_line("  install it (`brew install tmux` / `apt install tmux`),"@, faint()),
        text_line("  then press T again, or restart scaffl."@, faint()),
    ]
}

/// The notice shown when tmux is missing.
pub fn tmux_missing_lines() -> (res: Vec<Line>)
    ensures
        res.deep_view() == tmux_missing(),
{
    let mut lines = no_lines();
    push_blank(&mut lines);
    push_text(&mut lines, "  tmux is required for the terminals view", fg(Color::Red));
    push_blank(&mut lines);
    push_text(
        &mut lines,
        "  install it (`brew install tmux` / `apt install tmux`),",
        faint(),
    );
    push_text(&mut lines, "  then press T again, or restart scaffl.", faint());
    lines
}

/// `path` with the home directory written `~`.
pub open spec fn home_collapsed(path: Seq<char>, home: Option<Seq<char>>) -> Seq<char> {
    match home {
        Some(h) => if path == h {
            "~"@
        } else {
            match text::without_prefix(path, h + "/"@) {
                Some(rest) => "~/"@ + rest,
                None => path,
            }
        },
        None => path,
    }
}

/// `path` with the home directory written `~`.
pub fn collapse_home(path: &str, home: Option<&str>) -> (res: String)
    ensures
        res@ == home_collapsed(path@, home.deep_view()),
{
    if let Some(h) = home {
        if *path == *h {
            return "~".to_owned();
        }
        let with_slash = concat(h, "/");
        if let Some(rest) = text::strip_prefix(path, with_slash.as_str()) {
            return concat("~/", rest.as_str());
        }
    }
    path.to_owned()
}

/// The row of a tmux window: its index, its name and its directory.
pub open spec fn window_row(w: terminals::WindowModel, home: Option<Seq<char>>) -> Seq<SpanModel> {
    let head = seq![
        span("◇ "@, faint()),
        span(text::digits(w.index as nat) + ": "@, faint()),
        span(w.name, plain()),
    ];
    match w.cwd {
        Some(cwd) => head.push(span("  "@, plain())).push(
            span(home_collapsed(cwd, home), faint()),
        ),
        None => head,
    }
}

/// The row of a tmux window.
pub fn window_row_line(w: &TmuxWindow, home: Option<&str>) -> (res: Line)
    ensures
        res.deep_view() == window_row(w.deep_view(), home.deep_view()),
{
    let mut line = Line::new();
    line.push("◇ ", faint());
    let n = text::decimal(w.index as u64);
    let index = concat(n.as_str(), ": ");
    line.push(index.as_str(), faint());
    line.push(w.name.as_str(), plain());
    if let Some(cwd) = &w.cwd {
        line.push("  ", plain());
        let short = collapse_home(cwd.as_str(), home);
        line.push(short.as_str(), faint());
    }
    line
}

/// The colour of a service's dot.
pub open spec fn service_color(services: Map<Seq<char>, ServicePane>, name: Seq<char>) -> Color {
    if !services.contains_key(name) {
        Color::DarkGray
    } else if services[name].tail_error is Some {
        Color::Red
    } else {
        match services[name].status {
            Some(ServiceStatus::Running) => Color::Green,
            Some(ServiceStatus::Stopped) => Color::Yellow,
            Some(ServiceStatus::Missing) => Color::Red,
            None => Color::DarkGray,
        }
    }
}

/// The style of a service's dot.
pub fn service_indicator_style(a: &App, service: &str) -> (res: Style)
    ensures
        res == fg(service_color(a.services@, service@)),
{
    match a.services.get(service) {
        None => fg(Color::DarkGray),
        Some(pane) => if pane.tail_error.is_some() {
            fg(Color::Red)
        } else {
            match pane.status {
                Some(ServiceStatus::Running) => fg(Color::Green),
                Some(ServiceStatus::Stopped) => fg(Color::Yellow),
                Some(ServiceStatus::Missing) => fg(Color::Red),
                None => fg(Color::DarkGray),
            }
        },
    }
}

/// A row of the terminals view.
pub open spec fn terminals_row(
    a: App,
    row: terminals::RowModel,
    home: Option<Seq<char>>,
) -> Seq<SpanModel> {
    match row {
        terminals::RowModel::Service(name) => seq![
            span("● "@, fg(service_color(a.services@, name))),
            span(name, plain()),
        ],
        terminals::RowModel::Terminal(t) => seq![span("◇ "@, faint()), span(t.name@, plain())],
        terminals::RowModel::Window(w) => window_row(w.deep_view(), home),
        terminals::RowModel::NewSentinel => text_line("+ new shell"@, accent()),
    }
}

fn terminals_row_line(a: &App, row: &TerminalsRow, home: Option<&str>) -> (res: Line)
    ensures
        res.deep_view() == terminals_row(*a, row.deep_view(), home.deep_view()),
{
    match row {
        TerminalsRow::Service(name) => {
            let mut line = Line::new();
            line.push("● ", service_indicator_style(a, name.as_str()));
            line.push(name.as_str(), plain());
            line
        },
        TerminalsRow::Terminal(t) => {
            let mut line = Line::new();
            line.push("◇ ", faint());
            line.push(t.name.as_str(), plain());
            line
        },
        TerminalsRow::Window(w) => window_row_line(w, home),
        TerminalsRow::NewSentinel => {
            let mut line = Line::new();
            line.push("+ new shell", accent());
            line
        },
    }
}

/// The rows `from` to `to` of the terminals view.
pub open spec fn row_lines(
    a: App,
    from: int,
    to: int,
    home: Option<Seq<char>>,
) -> Seq<Seq<SpanModel>> {
    Seq::new(
        (to - from) as nat,
        |i: int| terminals_row(a, terminals::rows_of(a)[from + i], home),
    )
}

/// The place of `selected` within the rows `from` to `to`.
pub open spec fn local_selection(selected: int, from: int, to: int) -> Option<usize> {
    if from <= selected < to {
        Some((selected - from) as usize)
    } else {
        None
    }
}

fn rows_pane(
    a: &App,
    rows: &Vec<TerminalsRow>,
    from: usize,
    to: usize,
    chosen: usize,
    label: &str,
    count: usize,
    home: Option<&str>,
) -> (res: ListPane)
    requires
        rows.deep_view() == terminals::rows_of(*a),
        from <= to <= rows@.len(),
    ensures
        res.title.deep_view() == counted_title(label@, count as nat),
        res.rows.deep_view() == row_lines(*a, from as int, to as int, home.deep_view()),
        res.selected == local_selection(chosen as int, from as int, to as int),
{
    let ghost want = row_lines(*a, from as int, to as int, home.deep_view());
    let mut lines = no_lines();
    let mut i: usize = from;
    while i < to
        invariant
            from <= i <= to <= rows@.len(),
            rows.deep_view() == terminals::rows_of(*a),
            want == row_lines(*a, from as int, to as int, home.deep_view()),
            lines.deep_view() == want.take(i - from),
        decreases to - i,
    {
        let ghost before = lines.deep_view();
        assert(rows.deep_view()[i as int] == rows@[i as int].deep_view());
        let line = terminals_row_line(a, &rows[i], home);
        push_line(&mut lines, line);
        assert(want.take(i - from + 1) =~= before.push(want[i - from]));
        i += 1;
    }
    assert(want.take(i - from) =~= want);
    let selected: Option<usize> = if from <= chosen && chosen < to {
        Some(chosen - from)
    } else {
        None
    };
    ListPane { title: counted_title_line(label, count), rows: lines, selected }
}

/// The sidebar of the terminals view: the services, if any, and below them the
/// terminals with the row for a new one.
#[derive(Debug, PartialEq, Eq)]
pub struct TerminalsSidebar {
    pub services: Option<ListPane>,
    pub terminals: ListPane,
}

/// The sidebar of the terminals view. A selection beyond the rows shows as the
/// last one; the new-shell row is not counted in the title.
pub fn render_terminals_sidebar(a: &App, home: Option<&str>) -> (res: TerminalsSidebar)
    ensures
        ({
            let total = terminals::rows_of(*a).len() as int;
            let split = a.services.keys().len() as int;
            let selected = terminals::clamped(a.terminals.selected, total as nat) as int;
            &&& res.services is Some == (split > 0)
            &&& res.services matches Some(pane) ==> {
                &&& pane.title.deep_view() == counted_title("services"@, split as nat)
                &&& pane.rows.deep_view() == row_lines(*a, 0, split, home.deep_view())
                &&& pane.selected == local_selection(selected, 0, split)
            }
            &&& res.terminals.title.deep_view() == counted_title(
                "terminals"@,
                (total - split - 1) as nat,
            )
            &&& res.terminals.rows.deep_view() == row_lines(*a, split, total, home.deep_view())
            &&& res.terminals.selected == local_selection(selected, split, total)
        }),
{
    let rows = a.terminals_rows();
    let total: usize = rows.len();
    let split: usize = a.services.len();
    assert(total == rows.deep_view().len());
    let chosen: usize = if a.terminals.selected < total {
        a.terminals.selected
    } else {
        total - 1
    };
    let services = if split > 0 {
        Some(rows_pane(a, &rows, 0, split, chosen, "services", split, home))
    } else {
        None
    };
    let terminals = rows_pane(a, &rows, split, total, chosen, "terminals", total - split - 1, home);
    TerminalsSidebar { services, terminals }
}

/// The index of the last line of `captured` that is not blank.
pub open spec fn last_written(captured: Seq<Seq<char>>, n: nat) -> Option<int>
    decreases n,
{
    if n == 0 {
        None
    } else if text::trimmed(captured[n - 1]).len() > 0 {
        Some(n - 1)
    } else {
        last_written(captured, (n - 1) as nat)
    }
}

/// `lines` without the blank ones that they begin with.
pub open spec fn from_written(lines: Seq<Seq<char>>) -> Seq<Seq<char>>
    decreases lines.len(),
{
    if lines.len() > 0 && text::trimmed(lines[0]).len() == 0 {
        from_written(lines.drop_first())
    } else {
        lines
    }
}

/// The last `max_rows` lines of a captured pane up to the last one that is not
/// blank.
pub open spec fn tail_of(captured: Seq<Seq<char>>, max_rows: nat) -> Seq<Seq<char>> {
    let kept = match last_written(captured, captured.len()) {
        Some(last) => captured.take(last + 1),
        None => captured,
    };
    if kept.len() <= max_rows {
        kept
    } else {
        kept.skip(kept.len() - max_rows)
    }
}

/// The last `max_rows` lines of a captured pane, without the blank ones at either
/// end unless it is all blank.
pub open spec fn preview_of(captured: Seq<Seq<char>>, max_rows: nat) -> Seq<Seq<char>> {
    let tail = tail_of(captured, max_rows);
    if from_written(tail).len() > 0 {
        from_written(tail)
    } else {
        tail
    }
}

/// Unstyled lines.
pub open spec fn raw_lines(texts: Seq<Seq<char>>) -> Seq<Seq<SpanModel>> {
    texts.map_values(|t: Seq<char>| text_line(t, plain()))
}

proof fn lemma_last_written(captured: Seq<Seq<char>>, n: nat)
    requires
        n <= captured.len(),
    ensures
        last_written(captured, n) matches Some(i) ==> 0 <= i < n,
    decreases n,
{
    if n > 0 {
        lemma_last_written(captured, (n - 1) as nat);
    }
}

/// Where the lines from `start` to `end` begin once the blank ones that they begin
/// with are left out; at `start` when they are all blank.
fn skip_blank(captured: &Vec<String>, start: usize, end: usize) -> (res: usize)
    requires
        start <= end <= captured@.len(),
    ensures
        start <= res <= end,
        ({
            let tail = captured.deep_view().subrange(start as int, end as int);
            captured.deep_view().subrange(res as int, end as int) == if from_written(tail).len()
                > 0 {
                from_written(tail)
            } else {
                tail
            }
        }),
{
    let ghost all = captured.deep_view();
    let ghost tail = all.subrange(start as int, end as int);
    let mut i: usize = start;
    while i < end
        invariant
            start <= i <= end <= captured@.len(),
            all == captured.deep_view(),
            tail == all.subrange(start as int, end as int),
            from_written(all.subrange(i as int, end as int)) == from_written(tail),
        decreases end - i,
    {
        let ghost rest = all.subrange(i as int, end as int);
        assert(rest[0] == captured@[i as int]@);
        let trimmed = text::trim(captured[i].as_str());
        if !trimmed.as_str().is_empty() {
            return i;
        }
        assert(rest.drop_first() =~= all.subrange(i + 1, end as int));
        i += 1;
    }
    assert(all.subrange(end as int, end as int).len() == 0);
    start
}

/// The last lines of a captured pane.
pub fn preview_lines(captured: &Vec<String>, max_rows: usize) -> (res: Vec<Line>)
    ensures
        res.deep_view() == raw_lines(preview_of(captured.deep_view(), max_rows as nat)),
{
    let ghost all = captured.deep_view();
    let mut n: usize = captured.len();
    let mut end: usize = captured.len();
    while n > 0
        invariant_except_break
            n <= captured@.len(),
            all == captured.deep_view(),
            end == captured@.len(),
            last_written(all, n as nat) == last_written(all, all.len()),
        ensures
            end <= captured@.len(),
            end == match last_written(all, all.len()) {
                Some(last) => last + 1,
                None => all.len() as int,
            },
        decreases n,
    {
        assert(all[n - 1] == captured@[n - 1]@);
        let trimmed = text::trim(captured[n - 1].as_str());
        if !trimmed.as_str().is_empty() {
            end = n;
            break ;
        }
        n -= 1;
    }
    let start: usize = if end > max_rows {
        end - max_rows
    } else {
        0
    };
    let ghost tail = tail_of(all, max_rows as nat);
    proof {
        lemma_last_written(all, all.len());
        assert(tail =~= all.subrange(start as int, end as int));
    }
    let start = skip_blank(captured, start, end);
    let ghost want = preview_of(all, max_rows as nat);
    let mut lines = no_lines();
    let mut i: usize = start;
    assert(lines.deep_view() =~= raw_lines(want).take(0));
    while i < end
        invariant
            start <= i <= end <= captured@.len(),
            all == captured.deep_view(),
            want == all.subrange(start as int, end as int),
            lines.deep_view() == raw_lines(want).take(i - start),
        decreases end - i,
    {
        let ghost before = lines.deep_view();
        assert(want[i - start] == captured@[i as int]@);
        push_text(&mut lines, captured[i].as_str(), plain());
        assert(raw_lines(want).take(i - start + 1) =~= before.push(raw_lines(want)[i - start]));
        i += 1;
    }
    assert(raw_lines(want).take(i - start) =~= raw_lines(want));
    lines
}

/// What the window of that index last showed.
pub open spec fn preview_at(previews: Seq<PanePreview>, index: u32) -> Option<Seq<Seq<char>>>
    decreases previews.len(),
{
    if previews.len() == 0 {
        None
    } else if previews.last().index == index {
        Some(previews.last().lines.deep_view())
    } else {
        preview_at(previews.drop_last(), index)
    }
}

/// The captured lines that the info pane shows for a row.
pub open spec fn row_preview(a: App, row: terminals::RowModel, lines: Seq<Seq<char>>) -> bool {
    exists|index: Option<u32>| #[trigger]
        terminals::row_window(row, a.terminals.windows@, index) && lines == match index {
            Some(i) => match preview_at(a.terminals.previews@, i) {
                Some(l) => l,
                None => seq![],
            },
            None => seq![],
        }
}

fn find_preview(a: &App, index: u32) -> (res: Option<usize>)
    ensures
        match res {
            Some(k) => k < a.terminals.previews@.len() && preview_at(
                a.terminals.previews@,
                index,
            ) == Some(a.terminals.previews@[k as int].lines.deep_view()),
            None => preview_at(a.terminals.previews@, index) is None,
        },
{
    let mut n: usize = a.terminals.previews.len();
    assert(a.terminals.previews@.take(n as int) =~= a.terminals.previews@);
    while n > 0
        invariant
            n <= a.terminals.previews@.len(),
            preview_at(a.terminals.previews@.take(n as int), index) == preview_at(
                a.terminals.previews@,
                index,
            ),
        decreases n,
    {
        assert(a.terminals.previews@.take(n as int).drop_last() =~= a.terminals.previews@.take(
            n - 1,
        ));
        n -= 1;
        if a.terminals.previews[n].index == index {
            return Some(n);
        }
    }
    None
}

/// The title of the info pane.
pub open spec fn info_title(session: Seq<char>) -> Seq<SpanModel> {
    seq![
        span(" "@, plain()),
        span("tmux"@, accent_bold()),
        span("  session: "@ + session, faint()),
        span(" "@, plain()),
    ]
}

/// A preview under its heading.
pub open spec fn previewed(
    heading: Seq<char>,
    captured: Seq<Seq<char>>,
    height: nat,
) -> Seq<Seq<SpanModel>> {
    seq![text_line(heading, bold()), blank()] + raw_lines(preview_of(captured, height)) + seq![
        blank(),
        text_line("enter re-attaches  ·  d closes the window"@, faint()),
    ]
}

/// What an attach would run.
pub open spec fn explained(heading: Seq<char>, command: Seq<char>) -> Seq<Seq<SpanModel>> {
    seq![
        text_line(heading, bold()),
        blank(),
        text_line(command, faint()),
        blank(),
        text_line("ctrl+b d returns to scaffl"@, faint()),
    ]
}

/// The rows left for a preview in a pane of that height.
pub open spec fn preview_height(height: nat) -> nat {
    if height >= 6 {
        (height - 6) as nat
    } else {
        0
    }
}

/// The info pane for a row with the given captured lines.
pub open spec fn info_of(
    a: App,
    row: terminals::RowModel,
    captured: Seq<Seq<char>>,
    height: nat,
    home: Option<Seq<char>>,
) -> Seq<Seq<SpanModel>> {
    let session = a.terminals.session_name@;
    match row {
        terminals::RowModel::Service(name) => if captured.len() > 0 {
            previewed("svc:"@ + name + "  ·  last visible:"@, captured, preview_height(height))
        } else {
            explained(
                "attach into service `"@ + name + "`"@,
                "→ docker compose exec -it "@ + name + " $SHELL"@,
            )
        },
        terminals::RowModel::Window(w) => if captured.len() > 0 {
            previewed(
                match w.cwd {
                    Some(cwd) => w.name@ + "  ·  "@ + home_collapsed(cwd@, home),
                    None => w.name@,
                },
                captured,
                preview_height(height),
            )
        } else {
            explained(
                "attach into window `"@ + w.name@ + "`"@,
                "→ tmux attach -t "@ + session + ":"@ + text::digits(w.index as nat),
            )
        },
        terminals::RowModel::Terminal(t) => explained(
            "attach into window `"@ + t.name@ + "`"@,
            "→ tmux attach -t "@ + session + ":"@ + t.name@,
        ),
        terminals::RowModel::NewSentinel => explained(
            "open a new shell"@,
            "→ exec $SHELL in "@ + a.project_root@,
        ),
    }
}

fn previewed_lines(heading: &str, captured: &Vec<String>, height: usize) -> (res: Vec<Line>)
    ensures
        res.deep_view() == previewed(heading@, captured.deep_view(), height as nat),
{
    let mut lines = no_lines();
    push_text(&mut lines, heading, bold());
    push_blank(&mut lines);
    let body = preview_lines(captured, height);
    extend_lines(&mut lines, body);
    push_blank(&mut lines);
    push_text(&mut lines, "enter re-attaches  ·  d closes the window", faint());
    assert(lines.deep_view() =~= previewed(heading@, captured.deep_view(), height as nat));
    lines
}

fn explained_lines(heading: &str, command: &str) -> (res: Vec<Line>)
    ensures
        res.deep_view() == explained(heading@, command@),
{
    let mut lines = no_lines();
    push_text(&mut lines, heading, bold());
    push_blank(&mut lines);
    push_text(&mut lines, command, faint());
    push_blank(&mut lines);
    push_text(&mut lines, "ctrl+b d returns to scaffl", faint());
    lines
}

fn info_lines(
    a: &App,
    row: &TerminalsRow,
    captured: &Vec<String>,
    height: u16,
    home: Option<&str>,
) -> (res: Vec<Line>)
    ensures
        res.deep_view() == info_of(
            *a,
            row.deep_view(),
            captured.deep_view(),
            height as nat,
            home.deep_view(),
        ),
{
    assert(captured@.len() == captured.deep_view().len());
    let body: usize = if height >= 6 {
        (height - 6) as usize
    } else {
        0
    };
    let session = a.terminals.session_name.as_str();
    match row {
        TerminalsRow::Service(name) => {
            if captured.len() > 0 {
                let heading = concat3("svc:", name.as_str(), "  ·  last visible:");
                previewed_lines(heading.as_str(), captured, body)
            } else {
                let heading = concat3("attach into service `", name.as_str(), "`");
                let command = concat3("→ docker compose exec -it ", name.as_str(), " $SHELL");
                explained_lines(heading.as_str(), command.as_str())
            }
        },
        TerminalsRow::Window(w) => {
            if captured.len() > 0 {
                let heading = match &w.cwd {
                    Some(cwd) => {
                        let short = collapse_home(cwd.as_str(), home);
                        concat3(w.name.as_str(), "  ·  ", short.as_str())
                    },
                    None => w.name.clone(),
                };
                previewed_lines(heading.as_str(), captured, body)
            } else {
                let heading = concat3("attach into window `", w.name.as_str(), "`");
                let mut command = concat3("→ tmux attach -t ", session, ":");
                let n = text::decimal(w.index as u64);
                command.append(n.as_str());
                explained_lines(heading.as_str(), command.as_str())
            }
        },
        TerminalsRow::Terminal(t) => {
            let heading = concat3("attach into window `", t.name.as_str(), "`");
            let mut command = concat3("→ tmux attach -t ", session, ":");
            command.append(t.name.as_str());
            explained_lines(heading.as_str(), command.as_str())
        },
        TerminalsRow::NewSentinel => {
            let command = concat("→ exec $SHELL in ", a.project_root.as_str());
            explained_lines("open a new shell", command.as_str())
        },
    }
}

/// The info pane of the terminals view, in an area of that height: what the
/// selected row's window last showed, or how to attach to it.
pub fn render_terminals_info(a: &App, height: u16, home: Option<&str>) -> (res: TextPane)
    ensures
        res.title.deep_view() == info_title(a.terminals.session_name@),
        ({
            let rows = terminals::rows_of(*a);
            let at = a.terminals.selected as int;
            if at >= rows.len() {
                res.lines.deep_view() == Seq::<Seq<SpanModel>>::empty()
            } else {
                exists|captured: Seq<Seq<char>>| #[trigger]
                    row_preview(*a, rows[at], captured) && res.lines.deep_view() == info_of(
                        *a,
                        rows[at],
                        captured,
                        height as nat,
                        home.deep_view(),
                    )
            }
        }),
{
    let mut title = Line::new();
    title.push(" ", plain());
    title.push("tmux", accent_bold());
    let session = concat("  session: ", a.terminals.session_name.as_str());
    title.push(session.as_str(), faint());
    title.push(" ", plain());
    let rows = a.terminals_rows();
    assert(rows@.len() == rows.deep_view().len());
    if a.terminals.selected >= rows.len() {
        return TextPane { title, lines: no_lines() };
    }
    let row = &rows[a.terminals.selected];
    assert(row.deep_view() == rows.deep_view()[a.terminals.selected as int]);
    let index = terminals::window_of_row(row, &a.terminals.windows);
    assert(terminals::row_window(row.deep_view(), a.terminals.windows@, index));
    let nothing: Vec<String> = Vec::new();
    assert(nothing.deep_view() =~= Seq::<Seq<char>>::empty());
    let found = match index {
        Some(i) => find_preview(a, i),
        None => None,
    };
    let captured = match found {
        Some(k) => &a.terminals.previews[k].lines,
        None => &nothing,
    };
    assert(row_preview(*a, row.deep_view(), captured.deep_view()));
    let lines = info_lines(a, row, captured, height, home);
    TextPane { title, lines }
}

/// The home directory is written `~`, alone and in front of what lies below it; another
/// path stays.
pub proof fn law_paths_below_home_begin_with_a_tilde(home: Seq<char>, rest: Seq<char>, path: Seq<char>)
    ensures
        home_collapsed(home, Some(home)) == seq!['~'],
        home_collapsed(home + seq!['/'] + rest, Some(home)) == seq!['~', '/'] + rest,
        path != home && !(home + seq!['/']).is_prefix_of(path) ==> home_collapsed(path, Some(home))
            == path,
        home_collapsed(path, None) == path,
{
    reveal_strlit("~");
    reveal_strlit("~/");
    reveal_strlit("/");
    assert("~"@ =~= seq!['~']);
    assert("~/"@ =~= seq!['~', '/']);
    assert("/"@ =~= seq!['/']);
    let head = home + seq!['/'];
    let below = head + rest;
    assert(below.len() > home.len());
    assert(below.take(head.len() as int) =~= head);
    assert(below.skip(head.len() as int) =~= rest);
}

/// A window's row has its number, its name and its directory, where it has one.
pub proof fn law_window_rows_say_what_the_window_is(
    w: terminals::WindowModel,
    home: Option<Seq<char>>,
)
    ensures
        ({
            let row = window_row(w, home);
            &&& row[1].text == text::digits(w.index as nat) + ": "@ && row[2].text == w.name
            &&& w.cwd is Some ==> row.len() == 5 && row[4].text == home_collapsed(w.cwd->0, home)
            &&& w.cwd is None ==> row.len() == 3
        }),
{
}

/// The dot of a service is green while it runs, yellow where it is stopped, red where it
/// is missing or its log cannot be followed, and grey where nothing is known.
pub proof fn law_dots_say_how_a_service_does(services: Map<Seq<char>, ServicePane>, name: Seq<char>)
    ensures
        ({
            let color = service_color(services, name);
            let known = services.contains_key(name);
            let broken = known && services[name].tail_error is Some;
            let status = services[name].status;
            &&& !known ==> color == Color::DarkGray
            &&& broken ==> color == Color::Red
            &&& known && !broken && status == Some(ServiceStatus::Running) ==> color == Color::Green
            &&& known && !broken && status == Some(ServiceStatus::Stopped) ==> color
                == Color::Yellow
            &&& known && !broken && status == Some(ServiceStatus::Missing) ==> color == Color::Red
            &&& known && !broken && status is None ==> color == Color::DarkGray
        }),
{
}

/// A row of the terminals view shows the name of what it stands for.
pub proof fn law_terminal_rows_show_their_names(
    a: App,
    row: terminals::RowModel,
    home: Option<Seq<char>>,
)
    ensures
        ({
            let shown = terminals_row(a, row, home);
            &&& row matches terminals::RowModel::Service(name) ==> shown.len() == 2
                && shown[1].text == name && shown[0].style.fg == Some(
                service_color(a.services@, name),
            )
            &&& row matches terminals::RowModel::Terminal(t) ==> shown.len() == 2 && shown[1].text
                == t.name@
            &&& row matches terminals::RowModel::Window(w) ==> shown == window_row(
                w.deep_view(),
                home,
            )
            &&& row is NewSentinel ==> shown.len() == 1 && shown[0].text == "+ new shell"@
        }),
{
}

/// Rows are shown one for one, and the selected one is marked where it stands among
/// them.
pub proof fn law_rows_are_shown_one_for_one(
    a: App,
    from: int,
    to: int,
    home: Option<Seq<char>>,
    selected: int,
)
    requires
        0 <= from <= to <= usize::MAX,
    ensures
        row_lines(a, from, to, home).len() == to - from,
        forall|i: int|
            from <= i < to ==> row_lines(a, from, to, home)[i - from] == terminals_row(
                a,
                #[trigger] terminals::rows_of(a)[i],
                home,
            ),
        from <= selected < to ==> local_selection(selected, from, to) is Some && local_selection(
            selected,
            from,
            to,
        )->0 == selected - from,
        selected < from || to <= selected ==> local_selection(selected, from, to) is None,
{
}

/// Whether a line has anything but white space.
pub open spec fn is_written(line: Seq<char>) -> bool {
    exists|i: int| 0 <= i < line.len() && !text::is_space(#[trigger] line[i])
}

proof fn lemma_written(line: Seq<char>)
    ensures
        is_written(line) <==> text::trimmed(line).len() > 0,
{
    text::law_trimming_takes_white_space_off(line);
    let (a, b) = text::trim_bounds(line);
    if a < b {
        assert(!text::is_space(line[a]));
    }
}

/// A preview ends with the last line that has anything on it, goes back as far as the
/// rows allow, and then begins with the first such line.
pub proof fn law_previews_show_the_newest_writing(
    captured: Seq<Seq<char>>,
    rows: nat,
    first: int,
    last: int,
)
    requires
        0 <= first <= last < captured.len(),
        is_written(captured[last]),
        forall|i: int| last < i < captured.len() ==> !is_written(#[trigger] captured[i]),
        last + 1 - rows <= first,
        is_written(captured[first]),
        forall|i: int|
            0 <= i < first && last + 1 - rows <= i ==> !is_written(#[trigger] captured[i]),
    ensures
        preview_of(captured, rows) == captured.subrange(first, last + 1),
{
    lemma_last_of(captured, captured.len(), last);
    let kept = captured.take(last + 1);
    let tail = tail_of(captured, rows);
    let start = if kept.len() <= rows {
        0
    } else {
        kept.len() - rows
    };
    assert(tail =~= captured.subrange(start, last + 1));
    assert forall|i: int| 0 <= i < first - start implies !is_written(#[trigger] tail[i]) by {
        assert(tail[i] == captured[start + i]);
    }
    assert(tail[first - start] == captured[first]);
    lemma_from_written(tail, first - start);
    assert(tail.skip(first - start) =~= captured.subrange(first, last + 1));
}

proof fn lemma_last_of(captured: Seq<Seq<char>>, n: nat, last: int)
    requires
        0 <= last < n <= captured.len(),
        is_written(captured[last]),
        forall|i: int| last < i < n ==> !is_written(#[trigger] captured[i]),
    ensures
        last_written(captured, n) == Some(last),
    decreases n,
{
    lemma_written(captured[n - 1]);
    if last < n - 1 {
        assert(!is_written(captured[n - 1]));
        lemma_last_of(captured, (n - 1) as nat, last);
    }
}

proof fn lemma_from_written(lines: Seq<Seq<char>>, first: int)
    requires
        0 <= first < lines.len(),
        is_written(lines[first]),
        forall|i: int| 0 <= i < first ==> !is_written(#[trigger] lines[i]),
    ensures
        from_written(lines) == lines.skip(first),
    decreases first,
{
    lemma_written(lines[0]);
    if first == 0 {
        assert(lines.skip(0) =~= lines);
    } else {
        assert(!is_written(lines[0]));
        let rest = lines.drop_first();
        assert(rest[first - 1] == lines[first]);
        assert forall|i: int| 0 <= i < first - 1 implies !is_written(#[trigger] rest[i]) by {
            assert(rest[i] == lines[i + 1]);
        }
        lemma_from_written(rest, first - 1);
        assert(rest.skip(first - 1) =~= lines.skip(first));
    }
}

/// What a window last showed is the newest of its previews.
pub proof fn law_the_newest_preview_counts(
    previews: Seq<PanePreview>,
    newest: PanePreview,
    index: u32,
)
    ensures
        preview_at(Seq::<PanePreview>::empty(), index) is None,
        newest.index == index ==> preview_at(previews.push(newest), index) == Some(
            newest.lines.deep_view(),
        ),
        newest.index != index ==> preview_at(previews.push(newest), index) == preview_at(
            previews,
            index,
        ),
{
    assert(previews.push(newest).drop_last() =~= previews);
}

/// The info pane shows what the window of a row last showed under its heading, as far as
/// the height allows; without that it says what attaching would run.
pub proof fn law_the_info_pane_shows_or_explains(
    a: App,
    row: terminals::RowModel,
    captured: Seq<Seq<char>>,
    height: nat,
    home: Option<Seq<char>>,
)
    requires
        height >= 6,
    ensures
        ({
            let lines = info_of(a, row, captured, height, home);
            let session = a.terminals.session_name@;
            let shown = preview_of(captured, (height - 6) as nat);
            let previewing = captured.len() > 0 && (row is Service || row is Window);
            let n = lines.len();
            &&& previewing ==> n == shown.len() + 4 && lines.subrange(2, n - 2) == Seq::new(
                shown.len(),
                |i: int| text_line(shown[i], plain()),
            ) && lines[n - 1][0].text == "enter re-attaches  ·  d closes the window"@
            &&& !previewing ==> n == 5 && lines[4][0].text == "ctrl+b d returns to scaffl"@
            &&& row matches terminals::RowModel::Service(name) ==> lines[0][0].text
                == if previewing {
                "svc:"@ + name + "  ·  last visible:"@
            } else {
                "attach into service `"@ + name + "`"@
            } && (!previewing ==> lines[2][0].text == "→ docker compose exec -it "@ + name
                + " $SHELL"@)
            &&& row matches terminals::RowModel::Window(w) ==> (previewing && w.cwd is None ==>
                lines[0][0].text == w.name@) && (previewing && w.cwd is Some ==> lines[0][0].text
                == w.name@ + "  ·  "@ + home_collapsed(w.cwd->0@, home)) && (!previewing ==>
                lines[0][0].text == "attach into window `"@ + w.name@ + "`"@ && lines[2][0].text
                == "→ tmux attach -t "@ + session + ":"@ + text::digits(w.index as nat))
            &&& row matches terminals::RowModel::Terminal(t) ==> lines[0][0].text
                == "attach into window `"@ + t.name@ + "`"@ && lines[2][0].text
                == "→ tmux attach -t "@ + session + ":"@ + t.name@
            &&& row is NewSentinel ==> lines[0][0].text == "open a new shell"@ && lines[2][0].text
                == "→ exec $SHELL in "@ + a.project_root@
        }),
{
    let lines = info_of(a, row, captured, height, home);
    let shown = preview_of(captured, (height - 6) as nat);
    if captured.len() > 0 && (row is Service || row is Window) {
        assert(lines.subrange(2, lines.len() - 2) =~= Seq::new(
            shown.len(),
            |i: int| text_line(shown[i], plain()),
        ));
    }
}

/// Titles have their label, and a list's title the number of its rows.
pub proof fn law_titles_have_label_and_count(label: Seq<char>, count: nat, session: Seq<char>)
    ensures
        counted_title(label, count).len() == 3,
        counted_title(label, count)[1].text == label,
        counted_title(label, count)[2].text == " ("@ + text::digits(count) + ") "@,
        modal_title(label).len() == 3,
        modal_title(label)[1].text == label,
        info_title(session)[2].text == "  session: "@ + session,
{
}

/// The lines that the info pane shows are those of the row's own window; a row without
/// one has none.
pub proof fn law_rows_show_their_own_window(
    a: App,
    row: terminals::RowModel,
    lines: Seq<Seq<char>>,
)
    requires
        row_preview(a, row, lines),
    ensures
        row is Terminal || row is NewSentinel ==> lines.len() == 0,
        row matches terminals::RowModel::Window(w) ==> lines == match preview_at(
            a.terminals.previews@,
            w.index,
        ) {
            Some(l) => l,
            None => seq![],
        },
{
}

/// Where tmux is missing the view says so, and how to get it.
pub proof fn law_a_missing_tmux_is_explained()
    ensures
        tmux_missing().len() == 5,
        tmux_missing()[1][0].text == "  tmux is required for the terminals view"@,
        tmux_missing()[3][0].text == "  install it (`brew install tmux` / `apt install tmux`),"@,
        tmux_missing()[4][0].text == "  then press T again, or restart scaffl."@,
{
}

/// The model of a line has every span with its text and style.
pub proof fn law_lines_say_their_spans(line: Line, i: int)
    ensures
        line.deep_view().len() == line.spans@.len(),
        0 <= i < line.spans@.len() ==> line.deep_view()[i].text == line.spans@[i].text@
            && line.deep_view()[i].style == line.spans@[i].style,
{
}

} // verus!
