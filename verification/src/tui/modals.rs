//! The palette, the modals and the status bar.
use crate::text;
use crate::text::{concat, concat3};
use crate::tui::app::{App, ArgsPrompt, ConfirmDialog, ItemKind, Mode};
use crate::tui::palette::Palette;
use crate::tui::panes;
use crate::tui::panes::kind_label;
use crate::tui::ui;
use crate::tui::ui::{
    accent, accent_bold, bold, faint, fg, highlight, modal_title_line, no_lines, plain, push_blank,
    push_line, push_text, Color, Line, Style,
};
use crate::tui::view;
use crate::tui::worktrees::{NewFormField, NewWorktreeForm, WorktreeRow, WorktreeSwitcher};
use vstd::prelude::*;

verus! {

/// A box over the screen.
#[derive(Debug, PartialEq, Eq)]
pub struct Modal {
    pub title: Line,
    pub lines: Vec<Line>,
    /// How many rows the box takes, with its border.
    pub height: u16,
}

/// A row's style by whether it is selected.
pub open spec fn row_style(selected: bool, otherwise: Style) -> Style {
    if selected {
        highlight()
    } else {
        otherwise
    }
}

/// The marker in front of a row.
pub open spec fn marker(selected: bool) -> Seq<char> {
    if selected {
        "▶ "@
    } else {
        "  "@
    }
}

// ---------------------------------------------------------------------------
// Palette
// ---------------------------------------------------------------------------
/// Which of `total` rows show when `visible` fit: those around the selected one,
/// without running past an end.
pub open spec fn window_of(selected: nat, visible: nat, total: nat) -> (int, int) {
    if total <= visible {
        (0, total as int)
    } else {
        let half = visible / 2;
        let ideal = if selected >= half {
            selected - half
        } else {
            0
        };
        let start = if ideal <= total - visible {
            ideal
        } else {
            total - visible
        };
        (start, start + visible)
    }
}

/// Which of `total` rows show when `visible` fit.
pub fn window(selected: usize, visible: usize, total: usize) -> (res: (usize, usize))
    ensures
        res.0 == window_of(selected as nat, visible as nat, total as nat).0,
        res.1 == window_of(selected as nat, visible as nat, total as nat).1,
        res.0 <= res.1 <= total,
{
    if total <= visible {
        return (0, total);
    }
    let half: usize = visible / 2;
    let ideal: usize = if selected >= half {
        selected - half
    } else {
        0
    };
    let start: usize = if ideal <= total - visible {
        ideal
    } else {
        total - visible
    };
    (start, start + visible)
}

/// The rows that show are as many as fit, and the selected one is among them.
pub proof fn law_window_shows_the_selection(selected: nat, visible: nat, total: nat)
    requires
        selected < total,
        visible > 0,
    ensures
        ({
            let (start, end) = window_of(selected, visible, total);
            &&& 0 <= start <= selected < end <= total
            &&& end - start == if total <= visible {
                total
            } else {
                visible
            }
        }),
{
}

/// The line that the query is typed on.
pub open spec fn palette_input(p: Palette) -> Seq<ui::SpanModel> {
    seq![
        ui::span(" "@, plain()),
        ui::span("❯ "@, accent_bold()),
        ui::span(p.input@, bold()),
        ui::span("│"@, accent()),
    ]
}

/// The row of a match.
pub open spec fn match_row(name: Seq<char>, kind: ItemKind, selected: bool) -> Seq<ui::SpanModel> {
    seq![
        ui::span(marker(selected), row_style(selected, plain())),
        ui::span(text::padded_right(name, 24) + " "@, row_style(selected, plain())),
        ui::span("["@ + panes::kind_name(kind) + "]"@, row_style(selected, faint())),
    ]
}

/// The matches that show when `visible` rows fit.
pub open spec fn palette_rows(a: App, p: Palette, visible: nat) -> Seq<Seq<ui::SpanModel>> {
    let (start, end) = window_of(p.selected as nat, visible, p.matches@.len());
    Seq::new(
        (end - start) as nat,
        |i: int|
            {
                let item = a.items@[p.matches@[start + i].item_index as int];
                match_row(item.name@, item.kind, start + i == p.selected)
            },
    )
}

/// The palette's list.
pub open spec fn palette_body(a: App, p: Palette, visible: nat) -> Seq<Seq<ui::SpanModel>> {
    let rows = palette_rows(a, p, visible);
    if rows.len() == 0 {
        seq![ui::text_line("  (no matches)"@, faint())]
    } else {
        rows
    }
}

/// The palette: its title, the line of the query, and the list.
#[derive(Debug, PartialEq, Eq)]
pub struct PaletteBox {
    pub title: Line,
    pub input: Line,
    pub lines: Vec<Line>,
}

fn match_row_line(name: &str, kind: ItemKind, selected: bool) -> (res: Line)
    ensures
        res.deep_view() == match_row(name@, kind, selected),
{
    let mut line = Line::new();
    let padded = text::pad_right(name, 24);
    let label = concat(padded.as_str(), " ");
    let tag = concat3("[", kind_label(kind), "]");
    if selected {
        line.push("▶ ", highlight());
        line.push(label.as_str(), highlight());
        line.push(tag.as_str(), highlight());
    } else {
        line.push("  ", plain());
        line.push(label.as_str(), plain());
        line.push(tag.as_str(), faint());
    }
    line
}

/// The open palette; `visible` rows of its list fit.
pub fn render_palette(a: &App, p: &Palette, visible: usize) -> (res: PaletteBox)
    requires
        forall|i: int|
            0 <= i < p.matches@.len() ==> (#[trigger] p.matches@[i]).item_index < a.items@.len(),
    ensures
        res.title.deep_view() == seq![
            ui::span(" "@, plain()),
            ui::span("run …"@, accent_bold()),
            ui::span("  Esc cancels "@, faint()),
        ],
        res.input.deep_view() == palette_input(*p),
        res.lines.deep_view() == palette_body(*a, *p, visible as nat),
{
    let mut title = Line::new();
    title.push(" ", plain());
    title.push("run …", accent_bold());
    title.push("  Esc cancels ", faint());
    let mut input = Line::new();
    input.push(" ", plain());
    input.push("❯ ", accent_bold());
    input.push(p.input.as_str(), bold());
    input.push("│", accent());
    let (start, end) = window(p.selected, visible, p.matches.len());
    let ghost want = palette_rows(*a, *p, visible as nat);
    let mut lines = no_lines();
    let mut i: usize = start;
    assert(lines.deep_view() =~= want.take(0));
    while i < end
        invariant
            start <= i <= end <= p.matches@.len(),
            (start as int, end as int) == window_of(
                p.selected as nat,
                visible as nat,
                p.matches@.len(),
            ),
            want == palette_rows(*a, *p, visible as nat),
            forall|i: int|
                0 <= i < p.matches@.len() ==> (#[trigger] p.matches@[i]).item_index
                    < a.items@.len(),
            lines.deep_view() == want.take(i - start),
        decreases end - i,
    {
        let ghost before = lines.deep_view();
        let item = &a.items[p.matches[i].item_index];
        let line = match_row_line(item.name.as_str(), item.kind, i == p.selected);
        assert(line.deep_view() == want[i - start]);
        push_line(&mut lines, line);
        assert(want.take(i - start + 1) =~= before.push(want[i - start]));
        i += 1;
    }
    assert(want.take(i - start) =~= want);
    assert(lines@.len() == lines.deep_view().len());
    if lines.len() == 0 {
        push_text(&mut lines, "  (no matches)", faint());
    }
    PaletteBox { title, input, lines }
}

// ---------------------------------------------------------------------------
// Worktree switcher
// ---------------------------------------------------------------------------
/// The branch of a worktree.
pub open spec fn branch_label(row: WorktreeRow) -> Seq<char> {
    match row.branch {
        Some(b) => b@,
        None => "<detached>"@,
    }
}

/// The row of a worktree.
pub open spec fn worktree_line(row: WorktreeRow, selected: bool) -> Seq<ui::SpanModel> {
    seq![
        ui::span(marker(selected), row_style(selected, plain())),
        ui::span(text::padded_right(branch_label(row), 24), row_style(selected, plain())),
        if row.is_current {
            ui::span(" ●"@, fg(Color::Green))
        } else {
            ui::span("  "@, plain())
        },
        ui::span("  "@, plain()),
        ui::span(row.path@, faint()),
    ]
}

fn render_worktree_line(row: &WorktreeRow, selected: bool) -> (res: Line)
    ensures
        res.deep_view() == worktree_line(*row, selected),
{
    let label = match &row.branch {
        Some(b) => text::pad_right(b.as_str(), 24),
        None => text::pad_right("<detached>", 24),
    };
    let mut line = Line::new();
    if selected {
        line.push("▶ ", highlight());
        line.push(label.as_str(), highlight());
    } else {
        line.push("  ", plain());
        line.push(label.as_str(), plain());
    }
    if row.is_current {
        line.push(" ●", fg(Color::Green));
    } else {
        line.push("  ", plain());
    }
    line.push("  ", plain());
    line.push(row.path.as_str(), faint());
    line
}

/// The row for a new worktree.
pub open spec fn new_worktree_line(selected: bool) -> Seq<ui::SpanModel> {
    seq![
        ui::span(marker(selected), row_style(selected, accent())),
        ui::span("+ new worktree"@, row_style(selected, accent())),
    ]
}

/// The switcher's lines: the worktrees, the row for a new one, and the keys.
pub open spec fn switcher_lines(s: WorktreeSwitcher) -> Seq<Seq<ui::SpanModel>> {
    Seq::new(
        s.entries@.len(),
        |i: int| worktree_line(s.entries@[i], i == s.selected),
    ) + seq![
        new_worktree_line(s.selected == s.entries@.len()),
        ui::blank(),
        ui::text_line("↑↓ nav · enter switch · esc cancel"@, faint()),
    ]
}

/// The height of the switcher, which grows with its rows up to a limit.
pub open spec fn switcher_height(rows: nat) -> nat {
    if rows + 4 <= 20 {
        rows + 4
    } else {
        20
    }
}

/// The list of worktrees.
pub fn render_switcher_list(s: &WorktreeSwitcher) -> (res: Modal)
    ensures
        res.title.deep_view() == ui::modal_title("switch worktree"@),
        res.lines.deep_view() == switcher_lines(*s),
        res.height == switcher_height(s.entries@.len() + 1),
{
    let n: usize = s.entries.len();
    let height: u16 = if n < 16 {
        (n as u16) + 5
    } else {
        20
    };
    let ghost want = Seq::new(n as nat, |i: int| worktree_line(s.entries@[i], i == s.selected));
    let mut lines = no_lines();
    let mut i: usize = 0;
    assert(lines.deep_view() =~= want.take(0));
    while i < n
        invariant
            i <= n == s.entries@.len(),
            want == Seq::new(n as nat, |i: int| worktree_line(s.entries@[i], i == s.selected)),
            lines.deep_view() == want.take(i as int),
        decreases n - i,
    {
        let ghost before = lines.deep_view();
        let line = render_worktree_line(&s.entries[i], i == s.selected);
        push_line(&mut lines, line);
        assert(want.take(i + 1) =~= before.push(want[i as int]));
        i += 1;
    }
    assert(want.take(i as int) =~= want);
    let new_row: usize = s.new_row_index();
    let mut line = Line::new();
    if s.selected == new_row {
        line.push("▶ ", highlight());
        line.push("+ new worktree", highlight());
    } else {
        line.push("  ", accent());
        line.push("+ new worktree", accent());
    }
    assert(line.deep_view() =~= new_worktree_line(s.selected == new_row));
    push_line(&mut lines, line);
    push_blank(&mut lines);
    push_text(&mut lines, "↑↓ nav · enter switch · esc cancel", faint());
    assert(lines.deep_view() =~= switcher_lines(*s));
    Modal { title: modal_title_line("switch worktree"), lines, height }
}

/// A field of a form.
pub open spec fn field_line(label: Seq<char>, value: Seq<char>, focused: bool) -> Seq<ui::SpanModel> {
    if focused {
        seq![
            ui::span(text::padded_right(label, 8), accent_bold()),
            ui::span(value, bold()),
            ui::span("█"@, accent()),
        ]
    } else {
        seq![
            ui::span(text::padded_right(label, 8), faint()),
            ui::span(value, plain()),
            ui::span(""@, plain()),
        ]
    }
}

fn field_row(label: &str, value: &str, focused: bool) -> (res: Line)
    ensures
        res.deep_view() == field_line(label@, value@, focused),
{
    let padded = text::pad_right(label, 8);
    let mut line = Line::new();
    if focused {
        line.push(padded.as_str(), accent_bold());
        line.push(value, bold());
        line.push("█", accent());
    } else {
        line.push(padded.as_str(), faint());
        line.push(value, plain());
        line.push("", plain());
    }
    line
}

/// The form's lines: the two fields, the keys, and why the last try failed.
pub open spec fn form_lines(form: NewWorktreeForm) -> Seq<Seq<ui::SpanModel>> {
    let fields = seq![
        field_line("path"@, form.path_input@, form.focus == NewFormField::Path),
        field_line("branch"@, form.branch_input@, form.focus == NewFormField::Branch),
        ui::blank(),
        ui::text_line("tab toggle · enter create · esc back"@, faint()),
    ];
    match form.error {
        Some(e) => fields.push(ui::blank()).push(ui::text_line(e@, fg(Color::Red))),
        None => fields,
    }
}

/// The form for a new worktree.
pub fn render_switcher_form(form: &NewWorktreeForm) -> (res: Modal)
    ensures
        res.title.deep_view() == ui::modal_title("new worktree"@),
        res.lines.deep_view() == form_lines(*form),
        res.height == if form.error is Some {
            11u16
        } else {
            9u16
        },
{
    let on_path = form.focus == NewFormField::Path;
    let on_branch = form.focus == NewFormField::Branch;
    let mut lines = no_lines();
    push_line(&mut lines, field_row("path", form.path_input.as_str(), on_path));
    push_line(&mut lines, field_row("branch", form.branch_input.as_str(), on_branch));
    push_blank(&mut lines);
    push_text(&mut lines, "tab toggle · enter create · esc back", faint());
    let mut height: u16 = 9;
    if let Some(err) = &form.error {
        push_blank(&mut lines);
        push_text(&mut lines, err.as_str(), fg(Color::Red));
        height = 11;
    }
    Modal { title: modal_title_line("new worktree"), lines, height }
}

/// The switcher: the form where one is open, else the list.
pub fn render_worktree_switcher(s: &WorktreeSwitcher) -> (res: Modal)
    ensures
        match s.creating {
            Some(form) => res.title.deep_view() == ui::modal_title("new worktree"@)
                && res.lines.deep_view() == form_lines(form) && res.height == if form.error is Some {
                11u16
            } else {
                9u16
            },
            None => res.title.deep_view() == ui::modal_title("switch worktree"@)
                && res.lines.deep_view() == switcher_lines(*s) && res.height == switcher_height(
                s.entries@.len() + 1,
            ),
        },
{
    match &s.creating {
        Some(form) => render_switcher_form(form),
        None => render_switcher_list(s),
    }
}

// ---------------------------------------------------------------------------
// Prompts
// ---------------------------------------------------------------------------
/// The line that arguments are typed on.
pub open spec fn args_line(input: Seq<char>) -> Seq<ui::SpanModel> {
    seq![ui::span("> "@, accent()), ui::span(input, bold()), ui::span("█"@, accent())]
}

/// The answers of a question.
pub open spec fn answer_line(yes_focused: bool) -> Seq<ui::SpanModel> {
    seq![
        ui::span(" Yes "@, row_style(yes_focused, faint())),
        ui::span("    "@, plain()),
        ui::span(" No "@, row_style(!yes_focused, faint())),
    ]
}

/// The prompt for arguments.
pub fn render_args_prompt(prompt: &ArgsPrompt) -> (res: Modal)
    ensures
        res.title.deep_view() == ui::modal_title("args for `"@ + prompt.item_name@ + "`"@),
        res.lines.deep_view() == seq![
            args_line(prompt.input@),
            ui::blank(),
            ui::text_line("↵ run · esc cancel"@, faint()),
        ],
        res.height == 7,
{
    let label = concat3("args for `", prompt.item_name.as_str(), "`");
    let mut input = Line::new();
    input.push("> ", accent());
    input.push(prompt.input.as_str(), bold());
    input.push("█", accent());
    assert(input.deep_view() =~= args_line(prompt.input@));
    let mut lines = no_lines();
    push_line(&mut lines, input);
    push_blank(&mut lines);
    push_text(&mut lines, "↵ run · esc cancel", faint());
    Modal { title: modal_title_line(label.as_str()), lines, height: 7 }
}

/// The open question.
pub fn render_confirm_modal(dialog: &ConfirmDialog) -> (res: Modal)
    ensures
        res.title.deep_view() == ui::modal_title(dialog.title@),
        res.lines.deep_view() == seq![
            ui::text_line(dialog.body@, plain()),
            ui::blank(),
            answer_line(dialog.yes_focused),
        ],
        res.height == 7,
{
    let mut answers = Line::new();
    if dialog.yes_focused {
        answers.push(" Yes ", highlight());
        answers.push("    ", plain());
        answers.push(" No ", faint());
    } else {
        answers.push(" Yes ", faint());
        answers.push("    ", plain());
        answers.push(" No ", highlight());
    }
    assert(answers.deep_view() =~= answer_line(dialog.yes_focused));
    let mut lines = no_lines();
    push_text(&mut lines, dialog.body.as_str(), plain());
    push_blank(&mut lines);
    push_line(&mut lines, answers);
    Modal { title: modal_title_line(dialog.title.as_str()), lines, height: 7 }
}

// ---------------------------------------------------------------------------
// Status bar
// ---------------------------------------------------------------------------
/// What enter does on the selected row.
pub open spec fn enter_hint(a: App) -> Seq<char> {
    match a.selection() {
        Some(item) => match item.kind {
            ItemKind::Container => "up all"@,
            ItemKind::Service => "attach"@,
            ItemKind::Recipe => "run"@,
            ItemKind::Script => "run"@,
            ItemKind::Watcher => "select"@,
        },
        None => "select"@,
    }
}

/// The keys of the control center.
pub open spec fn control_hints(a: App) -> Seq<(Seq<char>, Seq<char>)> {
    if a.mode == Mode::Palette {
        seq![("↑↓"@, "nav"@), ("/  :"@, "palette"@), ("q"@, "quit"@)]
    } else {
        seq![
            ("↑↓"@, "nav"@),
            ("enter"@, enter_hint(a)),
            ("u/U"@, "up"@),
            ("r/R"@, "restart"@),
            ("s/S"@, "stop"@),
            ("D"@, "down all"@),
            ("T"@, "terminals"@),
            ("G"@, "diff"@),
            ("W"@, "worktree"@),
            ("/  :"@, "palette"@),
            ("q"@, "quit"@),
        ]
    }
}

/// The keys of the view that shows.
pub open spec fn hints_of(a: App) -> Seq<(Seq<char>, Seq<char>)> {
    match a.view {
        view::View::ControlCenter => control_hints(a),
        view::View::Terminals => seq![
            ("↑↓"@, "nav"@),
            ("enter"@, "attach"@),
            ("n"@, "new"@),
            ("d"@, "delete"@),
            ("C"@, "control"@),
            ("G"@, "diff"@),
            ("W"@, "worktree"@),
            ("q"@, "quit"@),
        ],
        view::View::Diff => seq![
            ("↑↓"@, "nav"@),
            ("r"@, "refresh"@),
            ("C"@, "control"@),
            ("T"@, "terminals"@),
            ("W"@, "worktree"@),
            ("q"@, "quit"@),
        ],
    }
}

fn control_center_hints(a: &App) -> (res: Vec<(&'static str, &'static str)>)
    ensures
        res.deep_view() == control_hints(*a),
{
    if a.mode == Mode::Palette {
        let hints = vec![("↑↓", "nav"), ("/  :", "palette"), ("q", "quit")];
        assert(hints.deep_view() =~= control_hints(*a));
        hints
    } else {
        let enter = match a.selected_item() {
            Some(item) => match item.kind {
                ItemKind::Container => "up all",
                ItemKind::Service => "attach",
                ItemKind::Recipe => "run",
                ItemKind::Script => "run",
                ItemKind::Watcher => "select",
            },
            None => "select",
        };
        let hints = vec![
            ("↑↓", "nav"),
            ("enter", enter),
            ("u/U", "up"),
            ("r/R", "restart"),
            ("s/S", "stop"),
            ("D", "down all"),
            ("T", "terminals"),
            ("G", "diff"),
            ("W", "worktree"),
            ("/  :", "palette"),
            ("q", "quit"),
        ];
        assert(hints.deep_view() =~= control_hints(*a));
        hints
    }
}

/// The keys of the view that shows, each with what it does.
pub fn view_hints(a: &App) -> (res: Vec<(&'static str, &'static str)>)
    ensures
        res.deep_view() == hints_of(*a),
{
    match a.view() {
        view::View::ControlCenter => control_center_hints(a),
        view::View::Terminals => {
            let hints = vec![
                ("↑↓", "nav"),
                ("enter", "attach"),
                ("n", "new"),
                ("d", "delete"),
                ("C", "control"),
                ("G", "diff"),
                ("W", "worktree"),
                ("q", "quit"),
            ];
            assert(hints.deep_view() =~= hints_of(*a));
            hints
        },
        view::View::Diff => {
            let hints = vec![
                ("↑↓", "nav"),
                ("r", "refresh"),
                ("C", "control"),
                ("T", "terminals"),
                ("W", "worktree"),
                ("q", "quit"),
            ];
            assert(hints.deep_view() =~= hints_of(*a));
            hints
        },
    }
}

/// The look of what a key does.
#[verifier::allow_in_spec]
pub fn hint_style() -> (res: Style)
    returns
        (Style { fg: Some(Color::White), bg: None, bold: false, italic: false, dim: true }),
{
    Style { fg: Some(Color::White), bg: None, bold: false, italic: false, dim: true }
}

/// The look of the mark in front of a banner.
#[verifier::allow_in_spec]
pub fn alert_style() -> (res: Style)
    returns
        (Style {
            fg: Some(Color::Black),
            bg: Some(Color::Yellow),
            bold: false,
            italic: false,
            dim: false,
        }),
{
    Style {
        fg: Some(Color::Black),
        bg: Some(Color::Yellow),
        bold: false,
        italic: false,
        dim: false,
    }
}

/// The first `n` hints, with dots between them.
pub open spec fn hint_spans(hints: Seq<(Seq<char>, Seq<char>)>, n: nat) -> Seq<ui::SpanModel>
    decreases n,
{
    if n == 0 {
        seq![]
    } else {
        let before = hint_spans(hints, (n - 1) as nat);
        let gap = if n > 1 {
            seq![
                ui::span("  "@, plain()),
                ui::span("·"@, faint()),
                ui::span("  "@, plain()),
            ]
        } else {
            seq![]
        };
        before + gap + seq![
            ui::span(hints[n - 1].0, accent_bold()),
            ui::span(" "@, plain()),
            ui::span(hints[n - 1].1, hint_style()),
        ]
    }
}

/// The status bar: a banner where there is one, else the view and its keys.
pub open spec fn status_line(a: App) -> Seq<ui::SpanModel> {
    match a.flash {
        Some(flash) => seq![
            ui::span(" ! "@, alert_style()),
            ui::span(" "@, plain()),
            ui::span(flash@, fg(Color::Yellow)),
        ],
        None => seq![
            ui::span(" "@, plain()),
            ui::span("["@ + a.view.tag_text() + "]"@, accent_bold()),
            ui::span("  "@, plain()),
            ui::span("·"@, faint()),
            ui::span("  "@, plain()),
        ] + hint_spans(hints_of(a), hints_of(a).len()),
    }
}

/// The status bar.
pub fn render_status(a: &App) -> (res: Line)
    ensures
        res.deep_view() == status_line(*a),
{
    let mut line = Line::new();
    if let Some(flash) = &a.flash {
        line.push(" ! ", alert_style());
        line.push(" ", plain());
        line.push(flash.as_str(), fg(Color::Yellow));
        return line;
    }
    let hints = view_hints(a);
    let tag = concat3("[", a.view().tag(), "]");
    line.push(" ", plain());
    line.push(tag.as_str(), accent_bold());
    line.push("  ", plain());
    line.push("·", faint());
    line.push("  ", plain());
    let ghost head = line.deep_view();
    let ghost all = hints.deep_view();
    let mut i: usize = 0;
    assert(line.deep_view() =~= head + hint_spans(all, 0));
    while i < hints.len()
        invariant
            i <= hints@.len(),
            all == hints.deep_view(),
            line.deep_view() == head + hint_spans(all, i as nat),
        decreases hints@.len() - i,
    {
        let ghost before = hint_spans(all, i as nat);
        assert(all[i as int] == hints@[i as int].deep_view());
        if i > 0 {
            line.push("  ", plain());
            line.push("·", faint());
            line.push("  ", plain());
        }
        line.push(hints[i].0, accent_bold());
        line.push(" ", plain());
        line.push(hints[i].1, hint_style());
        assert(line.deep_view() =~= head + hint_spans(all, (i + 1) as nat));
        i += 1;
    }
    line
}

/// The palette shows the matches that fit, in order, each by the name and kind of its
/// row, and marks the selected one; without matches it says so.
pub proof fn law_shown_matches_name_their_rows(a: App, p: Palette, visible: nat, i: int)
    requires
        p.selected < p.matches@.len(),
        visible > 0,
        0 <= i < palette_rows(a, p, visible).len(),
    ensures
        ({
            let rows = palette_rows(a, p, visible);
            let n = p.matches@.len();
            let start = window_of(p.selected as nat, visible, n).0;
            let item = a.items@[p.matches@[start + i].item_index as int];
            let selected = start + i == p.selected;
            &&& palette_body(a, p, visible) == rows
            &&& rows.len() == if n < visible {
                n
            } else {
                visible
            }
            &&& 0 <= start && start + rows.len() <= n && start <= p.selected < start + rows.len()
            &&& rows[i].len() == 3
            &&& rows[i][0].text == if selected {
                "▶ "@
            } else {
                "  "@
            }
            &&& rows[i][1].text == text::padded_right(item.name@, 24) + " "@
            &&& rows[i][2].text == "["@ + panes::kind_name(item.kind) + "]"@
            &&& selected <==> rows[i][1].style == highlight()
        }),
{
    law_window_shows_the_selection(p.selected as nat, visible, p.matches@.len());
}

/// A palette without matches says so, and what was typed stands on its line.
pub proof fn law_an_empty_palette_says_so(a: App, p: Palette, visible: nat)
    ensures
        p.matches@.len() == 0 ==> palette_body(a, p, visible).len() == 1 && palette_body(
            a,
            p,
            visible,
        )[0][0].text == "  (no matches)"@,
        palette_input(p)[2].text == p.input@,
{
}

/// The switcher shows every worktree by its branch and path, marks the current and the
/// selected one, and has the row for a new worktree behind them.
pub proof fn law_the_switcher_shows_every_worktree(s: WorktreeSwitcher, i: int)
    requires
        0 <= i < s.entries@.len(),
    ensures
        ({
            let lines = switcher_lines(s);
            let n = s.entries@.len();
            let row = s.entries@[i];
            &&& lines.len() == n + 3
            &&& lines[i].len() == 5
            &&& row.branch is Some ==> lines[i][1].text == text::padded_right(row.branch->0@, 24)
            &&& row.branch is None ==> lines[i][1].text == text::padded_right("<detached>"@, 24)
            &&& lines[i][2].text == if row.is_current {
                " ●"@
            } else {
                "  "@
            }
            &&& lines[i][4].text == row.path@
            &&& lines[i][0].text == if s.selected == i {
                "▶ "@
            } else {
                "  "@
            }
            &&& lines[n as int][1].text == "+ new worktree"@
            &&& lines[n as int][0].text == if s.selected == n {
                "▶ "@
            } else {
                "  "@
            }
        }),
{
}

/// The switcher grows with its rows and stops at twenty lines.
pub proof fn law_the_switcher_stays_small(rows: nat)
    ensures
        rows <= 16 ==> switcher_height(rows) == rows + 4,
        rows > 16 ==> switcher_height(rows) == 20,
{
}

/// The form shows path and branch as they were typed, a cursor behind the focused one,
/// and why the last try failed.
pub proof fn law_forms_show_what_was_typed(form: NewWorktreeForm)
    ensures
        ({
            let lines = form_lines(form);
            let path = form.focus == NewFormField::Path;
            &&& lines[0][0].text == text::padded_right("path"@, 8) && lines[0][1].text
                == form.path_input@
            &&& lines[1][0].text == text::padded_right("branch"@, 8) && lines[1][1].text
                == form.branch_input@
            &&& lines[0][2].text == if path {
                "█"@
            } else {
                ""@
            }
            &&& lines[1][2].text == if path {
                ""@
            } else {
                "█"@
            }
            &&& form.error is Some ==> lines.len() == 6 && lines[5][0].text == form.error->0@
            &&& form.error is None ==> lines.len() == 4
        }),
{
}

/// What is typed in the prompt stands on its line, and the focused answer of a question
/// is the one that is marked.
pub proof fn law_prompts_show_what_was_typed(input: Seq<char>, yes_focused: bool)
    ensures
        args_line(input)[1].text == input,
        answer_line(yes_focused)[0].text == " Yes "@ && answer_line(yes_focused)[2].text == " No "@,
        answer_line(yes_focused)[0].style == highlight() <==> yes_focused,
        answer_line(yes_focused)[2].style == highlight() <==> !yes_focused,
{
}

/// What enter is said to do goes by the selected row.
pub proof fn law_enter_is_explained_by_the_row(a: App)
    ensures
        a.selected >= a.items@.len() ==> enter_hint(a) == "select"@,
        a.selected < a.items@.len() ==> enter_hint(a) == match a.items@[a.selected as int].kind {
            ItemKind::Container => "up all"@,
            ItemKind::Service => "attach"@,
            ItemKind::Recipe => "run"@,
            ItemKind::Script => "run"@,
            ItemKind::Watcher => "select"@,
        },
{
}

/// The keys that the status bar explains in the control center.
pub proof fn law_the_control_center_explains_its_keys(a: App)
    requires
        a.view == view::View::ControlCenter,
        a.mode != Mode::Palette,
    ensures
        ({
            let hints = hints_of(a);
            &&& hints.len() == 11
            &&& hints[0] == ("↑↓"@, "nav"@) && hints[1] == ("enter"@, enter_hint(a))
            &&& hints[2] == ("u/U"@, "up"@) && hints[3] == ("r/R"@, "restart"@)
            &&& hints[4] == ("s/S"@, "stop"@) && hints[5] == ("D"@, "down all"@)
            &&& hints[6] == ("T"@, "terminals"@) && hints[7] == ("G"@, "diff"@)
            &&& hints[8] == ("W"@, "worktree"@) && hints[9] == ("/  :"@, "palette"@)
            &&& hints[10] == ("q"@, "quit"@)
        }),
{
}

/// The keys that the status bar explains in the other views, and over the palette.
pub proof fn law_other_views_explain_their_keys(a: App)
    ensures
        ({
            let hints = hints_of(a);
            &&& a.view == view::View::Terminals ==> hints == seq![
                ("↑↓"@, "nav"@),
                ("enter"@, "attach"@),
                ("n"@, "new"@),
                ("d"@, "delete"@),
                ("C"@, "control"@),
                ("G"@, "diff"@),
                ("W"@, "worktree"@),
                ("q"@, "quit"@),
            ]
            &&& a.view == view::View::Diff ==> hints == seq![
                ("↑↓"@, "nav"@),
                ("r"@, "refresh"@),
                ("C"@, "control"@),
                ("T"@, "terminals"@),
                ("W"@, "worktree"@),
                ("q"@, "quit"@),
            ]
            &&& a.view == view::View::ControlCenter && a.mode == Mode::Palette ==> hints == seq![
                ("↑↓"@, "nav"@),
                ("/  :"@, "palette"@),
                ("q"@, "quit"@),
            ]
        }),
{
}

/// Every key is shown with what it does, in order: six spans each, three for the first.
pub proof fn law_every_hint_is_shown(hints: Seq<(Seq<char>, Seq<char>)>, n: nat, i: int)
    requires
        0 <= i < n <= hints.len(),
    ensures
        hint_spans(hints, n).len() == 6 * n - 3,
        hint_spans(hints, n)[6 * i].text == hints[i].0,
        hint_spans(hints, n)[6 * i + 2].text == hints[i].1,
        i > 0 ==> hint_spans(hints, n)[6 * i - 2].text == "·"@,
    decreases n,
{
    let m = (n - 1) as nat;
    if m > 0 {
        if i < m {
            law_every_hint_is_shown(hints, m, i);
        } else {
            law_every_hint_is_shown(hints, m, 0);
        }
        let before = hint_spans(hints, m);
        assert(before.len() == 6 * m - 3);
    } else {
        assert(hint_spans(hints, 0).len() == 0);
    }
}

/// A banner takes the place of the status bar; without one the bar names the view and
/// explains its keys.
pub proof fn law_banners_take_the_status_bar(a: App)
    ensures
        ({
            let line = status_line(a);
            let hints = hint_spans(hints_of(a), hints_of(a).len());
            &&& a.flash is Some ==> line.len() == 3 && line[0].text == " ! "@ && line[2].text
                == a.flash->0@
            &&& a.flash is None ==> line.len() == 5 + hints.len() && line[1].text == "["@
                + a.view.tag_text() + "]"@ && line.skip(5) == hints
        }),
{
    if a.flash is None {
        let hints = hint_spans(hints_of(a), hints_of(a).len());
        assert(status_line(a).skip(5) =~= hints);
    }
}

} // verus!
