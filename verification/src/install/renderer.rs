//! The step list of `install`, redrawn in place.
//!
//! Each step has a row; the running one is followed by the last lines that it
//! printed. What is drawn is returned as lines of painted pieces, together with how
//! far to move up first.
use crate::durations;
use crate::durations::{format_minutes, format_seconds, rounded_seconds, SECOND};
use crate::text::concat;
use std::collections::VecDeque;
use vstd::prelude::*;

verus! {

/// How many lines show under the running step.
pub const TAIL_LINES: usize = 3;

/// How many lines are kept for the summary of a failure.
pub const RING_LINES: usize = 30;

/// How a step stands on screen.
#[derive(Debug, Clone, Copy, PartialEq, Eq, Structural)]
pub enum Status {
    Pending,
    Running,
    Done,
    Failed,
    Skipped,
}

/// How a step ended.
#[derive(Debug, Clone, Copy, PartialEq, Eq, Structural)]
pub enum StepOutcome {
    Done,
    Failed,
    Skipped,
}

impl StepOutcome {
    /// How the step stands then.
    pub open spec fn status(self) -> Status {
        match self {
            StepOutcome::Done => Status::Done,
            StepOutcome::Failed => Status::Failed,
            StepOutcome::Skipped => Status::Skipped,
        }
    }

    fn to_status(self) -> (res: Status)
        ensures
            res == self.status(),
    {
        match self {
            StepOutcome::Done => Status::Done,
            StepOutcome::Failed => Status::Failed,
            StepOutcome::Skipped => Status::Skipped,
        }
    }
}

/// A step and what it printed last.
#[derive(Debug, PartialEq, Eq)]
pub struct StepRow {
    pub label: String,
    pub status: Status,
    /// How long it took, as text.
    pub duration: Option<String>,
    pub tail: VecDeque<String>,
}

/// The step list.
#[derive(Debug, PartialEq, Eq)]
pub struct Renderer {
    pub rows: Vec<StepRow>,
    /// The number of lines drawn last, to be moved up over.
    pub last_line_count: u16,
    pub spinner_tick: usize,
    /// The last lines that the running step printed.
    pub ring: VecDeque<String>,
    /// Whether an interactive step has the terminal.
    pub paused: bool,
}

/// How a piece of text is painted.
#[derive(Debug, Clone, Copy, PartialEq, Eq, Structural)]
pub enum Paint {
    Plain,
    Grey,
    Bold,
    Yellow,
    RedBold,
    GreenBold,
    BlueBold,
}

/// A painted piece of text.
#[derive(Debug, PartialEq, Eq)]
pub struct Piece {
    pub text: String,
    pub paint: Paint,
}

/// What a [`Piece`] says.
pub ghost struct PieceModel {
    pub text: Seq<char>,
    pub paint: Paint,
}

impl DeepView for Piece {
    type V = PieceModel;

    open spec fn deep_view(&self) -> PieceModel {
        PieceModel { text: self.text@, paint: self.paint }
    }
}

/// Text painted that way.
pub open spec fn piece(text: Seq<char>, paint: Paint) -> PieceModel {
    PieceModel { text, paint }
}

/// What to draw: move up over what was drawn, clear, and print the lines.
#[derive(Debug, PartialEq, Eq)]
pub struct Frame {
    pub move_up: u16,
    pub lines: Vec<Vec<Piece>>,
}

// ---------------------------------------------------------------------------
// Rows
// ---------------------------------------------------------------------------
/// The frame of the spinner at a tick.
pub open spec fn spinner(tick: nat) -> Seq<char> {
    let i = tick % 10;
    if i == 0 {
        "⠋"@
    } else if i == 1 {
        "⠙"@
    } else if i == 2 {
        "⠹"@
    } else if i == 3 {
        "⠸"@
    } else if i == 4 {
        "⠼"@
    } else if i == 5 {
        "⠴"@
    } else if i == 6 {
        "⠦"@
    } else if i == 7 {
        "⠧"@
    } else if i == 8 {
        "⠇"@
    } else {
        "⠏"@
    }
}

fn spinner_frame(tick: usize) -> (res: &'static str)
    ensures
        res@ == spinner(tick as nat),
{
    let i: usize = tick % 10;
    if i == 0 {
        "⠋"
    } else if i == 1 {
        "⠙"
    } else if i == 2 {
        "⠹"
    } else if i == 3 {
        "⠸"
    } else if i == 4 {
        "⠼"
    } else if i == 5 {
        "⠴"
    } else if i == 6 {
        "⠦"
    } else if i == 7 {
        "⠧"
    } else if i == 8 {
        "⠇"
    } else {
        "⠏"
    }
}

/// The glyph of a row.
pub open spec fn glyph(status: Status, tick: nat) -> PieceModel {
    match status {
        Status::Pending => piece("○"@, Paint::Grey),
        Status::Running => piece(spinner(tick), Paint::BlueBold),
        Status::Done => piece("✓"@, Paint::GreenBold),
        Status::Failed => piece("✗"@, Paint::RedBold),
        Status::Skipped => piece("→"@, Paint::Yellow),
    }
}

/// The paint of a row's label.
pub open spec fn label_paint(status: Status) -> Paint {
    match status {
        Status::Pending => Paint::Grey,
        Status::Running => Paint::Bold,
        Status::Done => Paint::Plain,
        Status::Failed => Paint::RedBold,
        Status::Skipped => Paint::Yellow,
    }
}

/// The line of a row.
pub open spec fn row_line(row: StepRow, tick: nat) -> Seq<PieceModel> {
    let head = seq![
        piece("  "@, Paint::Plain),
        glyph(row.status, tick),
        piece(" "@, Paint::Plain),
        piece(row.label@, label_paint(row.status)),
    ];
    match row.duration {
        Some(d) => head.push(piece("  "@, Paint::Plain)).push(piece(d@, Paint::Grey)),
        None => head,
    }
}

fn push_piece(line: &mut Vec<Piece>, text: &str, paint: Paint)
    ensures
        final(line).deep_view() == old(line).deep_view().push(piece(text@, paint)),
{
    let ghost before = line.deep_view();
    line.push(Piece { text: text.to_owned(), paint });
    assert(line.deep_view() =~= before.push(piece(text@, paint)));
}

fn no_pieces() -> (res: Vec<Piece>)
    ensures
        res.deep_view() == Seq::<PieceModel>::empty(),
{
    let res: Vec<Piece> = Vec::new();
    assert(res.deep_view() =~= Seq::<PieceModel>::empty());
    res
}

fn render_row(row: &StepRow, tick: usize) -> (res: Vec<Piece>)
    ensures
        res.deep_view() == row_line(*row, tick as nat),
{
    let mut line = no_pieces();
    push_piece(&mut line, "  ", Paint::Plain);
    match row.status {
        Status::Pending => push_piece(&mut line, "○", Paint::Grey),
        Status::Running => push_piece(&mut line, spinner_frame(tick), Paint::BlueBold),
        Status::Done => push_piece(&mut line, "✓", Paint::GreenBold),
        Status::Failed => push_piece(&mut line, "✗", Paint::RedBold),
        Status::Skipped => push_piece(&mut line, "→", Paint::Yellow),
    }
    push_piece(&mut line, " ", Paint::Plain);
    let paint = match row.status {
        Status::Pending => Paint::Grey,
        Status::Running => Paint::Bold,
        Status::Done => Paint::Plain,
        Status::Failed => Paint::RedBold,
        Status::Skipped => Paint::Yellow,
    };
    push_piece(&mut line, row.label.as_str(), paint);
    if let Some(d) = &row.duration {
        push_piece(&mut line, "  ", Paint::Plain);
        push_piece(&mut line, d.as_str(), Paint::Grey);
    }
    assert(line.deep_view() =~= row_line(*row, tick as nat));
    line
}

/// A line that the running step printed.
pub open spec fn tail_line(s: Seq<char>) -> Seq<PieceModel> {
    seq![piece("      "@, Paint::Plain), piece(s, Paint::Grey)]
}

/// The lines of a row: its own, and those it printed while it runs.
pub open spec fn row_lines(row: StepRow, tick: nat) -> Seq<Seq<PieceModel>> {
    seq![row_line(row, tick)] + if row.status == Status::Running {
        row.tail.deep_view().map_values(|s: Seq<char>| tail_line(s))
    } else {
        seq![]
    }
}

/// The lines of the first `n` rows.
pub open spec fn list_lines(rows: Seq<StepRow>, tick: nat, n: nat) -> Seq<Seq<PieceModel>>
    decreases n,
{
    if n == 0 {
        seq![]
    } else {
        list_lines(rows, tick, (n - 1) as nat) + row_lines(rows[n - 1], tick)
    }
}

fn push_row(lines: &mut Vec<Vec<Piece>>, row: &StepRow, tick: usize)
    ensures
        final(lines).deep_view() == old(lines).deep_view() + row_lines(*row, tick as nat),
{
    let ghost before = lines.deep_view();
    let ghost want = row_lines(*row, tick as nat);
    let line = render_row(row, tick);
    lines.push(line);
    assert(lines.deep_view() =~= before + want.take(1));
    if row.status == Status::Running {
        let mut i: usize = 0;
        while i < row.tail.len()
            invariant
                i <= row.tail@.len(),
                row.status == Status::Running,
                want == row_lines(*row, tick as nat),
                lines.deep_view() == before + want.take(i + 1),
            decreases row.tail@.len() - i,
        {
            let ghost sofar = lines.deep_view();
            assert(row.tail.deep_view()[i as int] == row.tail@[i as int]@);
            let mut tail = no_pieces();
            push_piece(&mut tail, "      ", Paint::Plain);
            push_piece(&mut tail, row.tail[i].as_str(), Paint::Grey);
            assert(tail.deep_view() =~= want[i + 1]);
            lines.push(tail);
            assert(lines.deep_view() =~= sofar.push(want[i + 1]));
            assert(sofar.push(want[i + 1]) =~= before + want.take(i + 2));
            i += 1;
        }
        assert(want.take(i + 1) =~= want);
    } else {
        assert(want.take(1) =~= want);
    }
}

/// The line above the list.
pub open spec fn title_line(project_name: Seq<char>) -> Seq<PieceModel> {
    seq![piece("Installing keel steps for "@, Paint::Plain), piece(project_name, Paint::Bold)]
}

/// The line that gives a step the terminal.
pub open spec fn announce_line(label: Seq<char>) -> Seq<PieceModel> {
    seq![
        piece("  "@, Paint::Plain),
        piece("▶"@, Paint::BlueBold),
        piece(" "@, Paint::Plain),
        piece(label, Paint::Plain),
    ]
}

/// A line of one plain piece.
pub open spec fn plain_line(s: Seq<char>) -> Seq<PieceModel> {
    seq![piece(s, Paint::Plain)]
}

/// A line of nothing.
pub open spec fn blank_line() -> Seq<PieceModel> {
    seq![]
}

/// The line above what a failed step printed.
pub open spec fn summary_title(step_name: Seq<char>) -> Seq<PieceModel> {
    seq![
        piece("Output from `"@, Paint::Plain),
        piece(step_name, Paint::Bold),
        piece("`:"@, Paint::Plain),
    ]
}

fn render_plain(s: &str) -> (res: Vec<Piece>)
    ensures
        res.deep_view() == plain_line(s@),
{
    let mut line = no_pieces();
    push_piece(&mut line, s, Paint::Plain);
    assert(line.deep_view() =~= plain_line(s@));
    line
}

fn push_line(lines: &mut Vec<Vec<Piece>>, line: Vec<Piece>)
    ensures
        final(lines).deep_view() == old(lines).deep_view().push(line.deep_view()),
{
    let ghost before = lines.deep_view();
    lines.push(line);
    assert(lines.deep_view() =~= before.push(line.deep_view()));
}

fn no_lines() -> (res: Vec<Vec<Piece>>)
    ensures
        res.deep_view() == Seq::<Seq<PieceModel>>::empty(),
{
    let res: Vec<Vec<Piece>> = Vec::new();
    assert(res.deep_view() =~= Seq::<Seq<PieceModel>>::empty());
    res
}

/// A number of lines as it is remembered.
pub open spec fn remembered(n: nat) -> u16 {
    if n <= 65535 {
        n as u16
    } else {
        65535
    }
}

/// `buf` with `line` behind it, without its oldest entry where it had `cap`.
pub open spec fn pushed(buf: Seq<String>, line: Seq<char>, cap: nat, after: Seq<String>) -> bool {
    let kept = if buf.len() >= cap {
        buf.drop_first()
    } else {
        buf
    };
    &&& after.len() == kept.len() + 1
    &&& after.drop_last() == kept
    &&& after.last()@ == line
}

fn push_capped(buf: &mut VecDeque<String>, line: &str, cap: usize)
    requires
        cap > 0,
    ensures
        pushed(old(buf)@, line@, cap as nat, final(buf)@),
{
    let ghost before = buf@;
    if buf.len() >= cap {
        let _ = buf.pop_front();
        assert(buf@ =~= before.drop_first());
    }
    let ghost kept = buf@;
    buf.push_back(line.to_owned());
    assert(buf@.drop_last() =~= kept);
}

/// The row at place `i` is the first that runs.
pub open spec fn running_at(rows: Seq<StepRow>, i: int) -> bool {
    &&& 0 <= i < rows.len()
    &&& rows[i].status == Status::Running
    &&& forall|k: int| 0 <= k < i ==> (#[trigger] rows[k]).status != Status::Running
}

/// A row that has begun to run.
pub open spec fn begun(row: StepRow, after: StepRow) -> bool {
    &&& after.label == row.label
    &&& after.status == Status::Running
    &&& after.duration == row.duration
    &&& after.tail@.len() == 0
}

/// The rows with the one at place `idx`, if there is one, begun.
pub open spec fn rows_begun(rows: Seq<StepRow>, idx: int, after: Seq<StepRow>) -> bool {
    &&& after.len() == rows.len()
    &&& forall|k: int| 0 <= k < rows.len() && k != idx ==> #[trigger] after[k] == rows[k]
    &&& 0 <= idx < rows.len() ==> begun(rows[idx], after[idx])
}

/// A row that has ended.
pub open spec fn ended(row: StepRow, outcome: StepOutcome, duration: String, after: StepRow) -> bool {
    &&& after.label == row.label
    &&& after.status == outcome.status()
    &&& after.duration == Some(duration)
    &&& after.tail@.len() == 0
}

impl Renderer {
    /// The buffers stay within their limits.
    pub open spec fn wf(&self) -> bool {
        &&& self.ring@.len() <= RING_LINES
        &&& forall|k: int|
            0 <= k < self.rows@.len() ==> (#[trigger] self.rows@[k]).tail@.len() <= TAIL_LINES
    }

    /// Whether `frame` draws the list below the lines `above`, given how many lines
    /// were drawn before.
    pub open spec fn redraws(
        &self,
        last: u16,
        above: Seq<Seq<PieceModel>>,
        frame: Frame,
    ) -> bool {
        let lines = list_lines(self.rows@, self.spinner_tick as nat, self.rows@.len());
        &&& frame.move_up == last
        &&& frame.lines.deep_view() == above + lines
        &&& self.last_line_count == remembered(lines.len())
    }

    /// The list of steps of those labels, none of them tried yet, and its first
    /// drawing below a header.
    pub fn new(project_name: &str, labels: Vec<String>) -> (res: (Self, Frame))
        ensures
            res.0.wf(),
            res.0.rows@.len() == labels@.len(),
            forall|i: int|
                0 <= i < labels@.len() ==> {
                    &&& (#[trigger] res.0.rows@[i]).label == labels@[i]
                    &&& res.0.rows@[i].status == Status::Pending
                    &&& res.0.rows@[i].duration is None
                    &&& res.0.rows@[i].tail@.len() == 0
                },
            res.0.spinner_tick == 0,
            res.0.ring@.len() == 0,
            !res.0.paused,
            res.0.redraws(0, seq![title_line(project_name@), blank_line()], res.1),
    {
        let ghost all = labels@;
        let mut rows: Vec<StepRow> = Vec::new();
        for label in it: labels
            invariant
                it.seq() == all,
                rows@.len() == it.index(),
                forall|i: int|
                    0 <= i < rows@.len() ==> {
                        &&& (#[trigger] rows@[i]).label == all[i]
                        &&& rows@[i].status == Status::Pending
                        &&& rows@[i].duration is None
                        &&& rows@[i].tail@.len() == 0
                    },
        {
            rows.push(
                StepRow { label, status: Status::Pending, duration: None, tail: VecDeque::new() },
            );
        }
        let mut res = Renderer {
            rows,
            last_line_count: 0,
            spinner_tick: 0,
            ring: VecDeque::new(),
            paused: false,
        };
        let mut title = no_pieces();
        push_piece(&mut title, "Installing keel steps for ", Paint::Plain);
        push_piece(&mut title, project_name, Paint::Bold);
        assert(title.deep_view() =~= title_line(project_name@));
        let mut above = no_lines();
        push_line(&mut above, title);
        push_line(&mut above, no_pieces());
        assert(above.deep_view() =~= seq![title_line(project_name@), blank_line()]);
        let frame = res.redraw_full(above);
        (res, frame)
    }

    fn redraw_full(&mut self, above: Vec<Vec<Piece>>) -> (res: Frame)
        ensures
            final(self).redraws(old(self).last_line_count, above.deep_view(), res),
            *final(self) == (Renderer {
                last_line_count: final(self).last_line_count,
                ..*old(self)
            }),
    {
        let ghost rows = self.rows@;
        let ghost tick = self.spinner_tick as nat;
        let move_up: u16 = self.last_line_count;
        let ghost over = above.deep_view();
        let skipped: usize = above.len();
        assert(skipped == over.len());
        let mut lines: Vec<Vec<Piece>> = above;
        let mut i: usize = 0;
        assert(lines.deep_view() =~= over + list_lines(rows, tick, 0));
        while i < self.rows.len()
            invariant
                i <= self.rows@.len(),
                *self == *old(self),
                rows == self.rows@,
                tick == self.spinner_tick,
                lines.deep_view() == over + list_lines(rows, tick, i as nat),
            decreases self.rows@.len() - i,
        {
            push_row(&mut lines, &self.rows[i], self.spinner_tick);
            assert(lines.deep_view() =~= over + list_lines(rows, tick, (i + 1) as nat));
            i += 1;
        }
        assert(lines@.len() == lines.deep_view().len());
        let drawn: usize = lines.len() - skipped;
        self.last_line_count = if drawn <= 65535 {
            drawn as u16
        } else {
            65535
        };
        Frame { move_up, lines }
    }

    fn begin_row(&mut self, idx: usize)
        requires
            old(self).wf(),
        ensures
            final(self).wf(),
            rows_begun(old(self).rows@, idx as int, final(self).rows@),
            final(self).ring@.len() == 0,
            *final(self) == (Renderer {
                rows: final(self).rows,
                ring: final(self).ring,
                ..*old(self)
            }),
    {
        if idx < self.rows.len() {
            self.rows[idx].status = Status::Running;
            self.rows[idx].tail = VecDeque::new();
        }
        self.ring = VecDeque::new();
    }

    /// A step begins: its row runs, and nothing is captured yet.
    pub fn begin(&mut self, idx: usize) -> (res: Frame)
        requires
            old(self).wf(),
        ensures
            final(self).wf(),
            rows_begun(old(self).rows@, idx as int, final(self).rows@),
            final(self).ring@.len() == 0,
            final(self).spinner_tick == old(self).spinner_tick,
            final(self).paused == old(self).paused,
            final(self).redraws(old(self).last_line_count, seq![], res),
    {
        self.begin_row(idx);
        self.redraw_full(no_lines())
    }

    /// A step ends: its row collapses to one line with how it went and how long it
    /// took.
    pub fn end(&mut self, idx: usize, outcome: StepOutcome, duration: String) -> (res: Frame)
        requires
            old(self).wf(),
        ensures
            final(self).wf(),
            final(self).rows@.len() == old(self).rows@.len(),
            forall|k: int|
                0 <= k < old(self).rows@.len() && k != idx ==> #[trigger] final(self).rows@[k]
                    == old(self).rows@[k],
            idx < old(self).rows@.len() ==> ended(
                old(self).rows@[idx as int],
                outcome,
                duration,
                final(self).rows@[idx as int],
            ),
            final(self).ring == old(self).ring,
            final(self).spinner_tick == old(self).spinner_tick,
            final(self).paused == old(self).paused,
            final(self).redraws(old(self).last_line_count, seq![], res),
    {
        if idx < self.rows.len() {
            self.rows[idx].status = outcome.to_status();
            self.rows[idx].duration = Some(duration);
            self.rows[idx].tail = VecDeque::new();
        }
        self.redraw_full(no_lines())
    }

    /// Takes in a line that the running step printed; nothing is taken in while an
    /// interactive step has the terminal. The redraw is left to the next tick.
    pub fn append_tail(&mut self, line: &str)
        requires
            old(self).wf(),
        ensures
            final(self).wf(),
            old(self).paused ==> *final(self) == *old(self),
            !old(self).paused ==> {
                &&& pushed(old(self).ring@, line@, RING_LINES as nat, final(self).ring@)
                &&& final(self).rows@.len() == old(self).rows@.len()
                &&& forall|k: int|
                    0 <= k < old(self).rows@.len() ==> {
                        let before = old(self).rows@[k];
                        let after = #[trigger] final(self).rows@[k];
                        if running_at(old(self).rows@, k) {
                            &&& pushed(before.tail@, line@, TAIL_LINES as nat, after.tail@)
                            &&& after == (StepRow { tail: after.tail, ..before })
                        } else {
                            after == before
                        }
                    }
            },
            *final(self) == (Renderer {
                rows: final(self).rows,
                ring: final(self).ring,
                ..*old(self)
            }),
    {
        if self.paused {
            return ;
        }
        let ghost was = *self;
        push_capped(&mut self.ring, line, RING_LINES);
        let mut i: usize = 0;
        while i < self.rows.len()
            invariant
                i <= self.rows@.len(),
                was == *old(self),
                was.wf(),
                !was.paused,
                self.rows == was.rows,
                *self == (Renderer { ring: self.ring, ..was }),
                self.ring@.len() <= RING_LINES,
                pushed(was.ring@, line@, RING_LINES as nat, self.ring@),
                forall|k: int| 0 <= k < i ==> (#[trigger] was.rows@[k]).status != Status::Running,
            decreases self.rows@.len() - i,
        {
            if self.rows[i].status == Status::Running {
                assert(running_at(was.rows@, i as int));
                push_capped(&mut self.rows[i].tail, line, TAIL_LINES);
                return ;
            }
            i += 1;
        }
    }

    /// Turns the spinner by one frame and redraws, unless an interactive step has
    /// the terminal.
    pub fn tick(&mut self) -> (res: Option<Frame>)
        requires
            old(self).wf(),
        ensures
            final(self).wf(),
            res is Some == !old(self).paused,
            old(self).paused ==> *final(self) == *old(self),
            !old(self).paused ==> {
                &&& final(self).spinner_tick == if old(self).spinner_tick == usize::MAX {
                    0
                } else {
                    (old(self).spinner_tick + 1) as usize
                }
                &&& final(self).rows == old(self).rows
                &&& final(self).ring == old(self).ring
                &&& !final(self).paused
                &&& final(self).redraws(old(self).last_line_count, seq![], res->0)
            },
    {
        if self.paused {
            return None;
        }
        self.spinner_tick = if self.spinner_tick == usize::MAX {
            0
        } else {
            self.spinner_tick + 1
        };
        Some(self.redraw_full(no_lines()))
    }

    /// Hands the terminal to an interactive step: what was drawn is cleared, and the
    /// step is announced.
    pub fn pause_for_interactive(&mut self, idx: usize) -> (res: Frame)
        requires
            old(self).wf(),
            idx < old(self).rows@.len(),
        ensures
            final(self).wf(),
            res.move_up == old(self).last_line_count,
            res.lines.deep_view() == seq![
                announce_line(old(self).rows@[idx as int].label@),
                plain_line("  (passing terminal to step)"@),
                blank_line(),
            ],
            rows_begun(old(self).rows@, idx as int, final(self).rows@),
            final(self).ring@.len() == 0,
            final(self).last_line_count == 0,
            final(self).spinner_tick == old(self).spinner_tick,
            final(self).paused,
    {
        let move_up: u16 = self.last_line_count;
        let mut announced = no_pieces();
        push_piece(&mut announced, "  ", Paint::Plain);
        push_piece(&mut announced, "▶", Paint::BlueBold);
        push_piece(&mut announced, " ", Paint::Plain);
        push_piece(&mut announced, self.rows[idx].label.as_str(), Paint::Plain);
        assert(announced.deep_view() =~= announce_line(self.rows@[idx as int].label@));
        let mut lines = no_lines();
        push_line(&mut lines, announced);
        push_line(&mut lines, render_plain("  (passing terminal to step)"));
        push_line(&mut lines, no_pieces());
        self.begin_row(idx);
        self.last_line_count = 0;
        self.paused = true;
        Frame { move_up, lines }
    }

    /// Takes the terminal back: the list is drawn anew below what the step left.
    pub fn resume_after_interactive(&mut self) -> (res: Frame)
        requires
            old(self).wf(),
        ensures
            final(self).wf(),
            final(self).rows == old(self).rows,
            final(self).ring == old(self).ring,
            final(self).spinner_tick == old(self).spinner_tick,
            !final(self).paused,
            final(self).redraws(0, seq![blank_line()], res),
    {
        self.paused = false;
        self.last_line_count = 0;
        let mut above = no_lines();
        push_line(&mut above, no_pieces());
        assert(above.deep_view() =~= seq![blank_line()]);
        self.redraw_full(above)
    }

    /// What a failed step printed last.
    pub open spec fn captured(&self) -> Seq<Seq<PieceModel>> {
        if self.ring@.len() == 0 {
            seq![plain_line("  (no output captured)"@)]
        } else {
            self.ring.deep_view().map_values(|s: Seq<char>| plain_line("  "@ + s))
        }
    }

    /// The lines below the list once a step has failed: what it printed last.
    pub fn print_failure_summary(&self, step_name: &str) -> (res: Vec<Vec<Piece>>)
        ensures
            res.deep_view() == seq![blank_line(), summary_title(step_name@)] + self.captured(),
    {
        let mut title = no_pieces();
        push_piece(&mut title, "Output from `", Paint::Plain);
        push_piece(&mut title, step_name, Paint::Bold);
        push_piece(&mut title, "`:", Paint::Plain);
        assert(title.deep_view() =~= summary_title(step_name@));
        let mut lines = no_lines();
        push_line(&mut lines, no_pieces());
        push_line(&mut lines, title);
        let ghost above = seq![blank_line(), summary_title(step_name@)];
        assert(lines.deep_view() =~= above);
        if self.ring.len() == 0 {
            push_line(&mut lines, render_plain("  (no output captured)"));
            assert(lines.deep_view() =~= above + self.captured());
            return lines;
        }
        let ghost want = self.captured();
        let mut i: usize = 0;
        assert(lines.deep_view() =~= above + want.take(0));
        while i < self.ring.len()
            invariant
                i <= self.ring@.len(),
                self.ring@.len() > 0,
                want == self.captured(),
                lines.deep_view() == above + want.take(i as int),
            decreases self.ring@.len() - i,
        {
            assert(self.ring.deep_view()[i as int] == self.ring@[i as int]@);
            let line = concat("  ", self.ring[i].as_str());
            push_line(&mut lines, render_plain(line.as_str()));
            assert(want.take(i + 1) =~= want.take(i as int).push(want[i as int]));
            assert(lines.deep_view() =~= above + want.take(i + 1));
            i += 1;
        }
        assert(want.take(i as int) =~= want);
        lines
    }
}

// ---------------------------------------------------------------------------
// Durations
// ---------------------------------------------------------------------------
/// The text of a step's duration. From a minute on the seconds are rounded, so that
/// the last half second of a minute shows as sixty seconds.
pub open spec fn duration_text(secs: int, nanos: int) -> Seq<char> {
    if secs < 60 {
        durations::seconds_text(secs, nanos)
    } else {
        durations::minutes_text(
            (secs / 60) as nat,
            durations::whole_seconds(secs % 60, nanos) as nat,
        )
    }
}

/// The text of a step's duration.
pub fn format_duration(secs: u64, nanos: u32) -> (res: String)
    requires
        nanos < SECOND,
    ensures
        res@ == duration_text(secs as int, nanos as int),
{
    if secs < 60 {
        format_seconds(secs, nanos)
    } else {
        format_minutes(secs / 60, rounded_seconds(secs % 60, nanos))
    }
}

/// A step that does not run takes one line of the list.
pub proof fn law_rows_collapse(row: StepRow, tick: nat)
    ensures
        row.status != Status::Running ==> row_lines(row, tick).len() == 1,
        row.status == Status::Running ==> row_lines(row, tick).len() == 1 + row.tail@.len(),
{
}

/// A row shows, in this order, how its step stands, its label and, once it is known,
/// how long it took.
pub proof fn law_rows_show_their_step(row: StepRow, tick: nat)
    ensures
        ({
            let line = row_line(row, tick);
            &&& line.len() == if row.duration is Some {
                6int
            } else {
                4int
            }
            &&& line[3].text == row.label@
            &&& row.duration is Some ==> line[5].text == row.duration->0@
            &&& row.status == Status::Pending ==> line[1].text == "○"@
            &&& row.status == Status::Done ==> line[1].text == "✓"@
            &&& row.status == Status::Failed ==> line[1].text == "✗"@
            &&& row.status == Status::Skipped ==> line[1].text == "→"@
            &&& row.status == Status::Running ==> line[1].text == spinner(tick)
        }),
{
}

/// The list shows every row in order, each on a line of its own, and under the one
/// that runs the lines that it printed last.
pub proof fn law_every_row_is_shown(rows: Seq<StepRow>, tick: nat, r: int)
    requires
        0 <= r <= rows.len(),
        forall|k: int|
            0 <= k < rows.len() && k != r ==> (#[trigger] rows[k]).status != Status::Running,
        r < rows.len() ==> rows[r].status == Status::Running,
    ensures
        ({
            let lines = list_lines(rows, tick, rows.len());
            let below = if r < rows.len() {
                rows[r].tail@.len() as int
            } else {
                0
            };
            &&& lines.len() == rows.len() + below
            &&& forall|k: int|
                0 <= k <= r && k < rows.len() ==> #[trigger] lines[k] == row_line(rows[k], tick)
            &&& forall|k: int|
                r < k < rows.len() ==> lines[k + below] == row_line(#[trigger] rows[k], tick)
            &&& forall|k: int|
                0 <= k < below ==> #[trigger] lines[r + 1 + k] == seq![
                    piece("      "@, Paint::Plain),
                    piece(rows[r].tail@[k]@, Paint::Grey),
                ]
        }),
{
    lemma_list_lines(rows, tick, r, rows.len());
}

proof fn lemma_list_lines(rows: Seq<StepRow>, tick: nat, r: int, n: nat)
    requires
        0 <= r <= rows.len(),
        n <= rows.len(),
        forall|k: int|
            0 <= k < rows.len() && k != r ==> (#[trigger] rows[k]).status != Status::Running,
        r < rows.len() ==> rows[r].status == Status::Running,
    ensures
        ({
            let lines = list_lines(rows, tick, n);
            let below = if r < n {
                rows[r].tail@.len() as int
            } else {
                0
            };
            &&& lines.len() == n + below
            &&& forall|k: int|
                0 <= k <= r && k < n ==> #[trigger] lines[k] == row_line(rows[k], tick)
            &&& forall|k: int|
                r < k < n ==> lines[k + below] == row_line(#[trigger] rows[k], tick)
            &&& forall|k: int|
                0 <= k < below ==> #[trigger] lines[r + 1 + k] == tail_line(rows[r].tail@[k]@)
        }),
    decreases n,
{
    if n > 0 {
        let m = (n - 1) as nat;
        lemma_list_lines(rows, tick, r, m);
        let before = list_lines(rows, tick, m);
        let lines = list_lines(rows, tick, n);
        let more = row_lines(rows[m as int], tick);
        assert(lines == before + more);
        assert(lines[before.len() as int] == more[0]);
        assert(more[0] == row_line(rows[m as int], tick));
        if m == r {
            let below = rows[r].tail@.len() as int;
            assert(rows[r].tail.deep_view().len() == below);
            assert forall|k: int| 0 <= k < below implies #[trigger] lines[r + 1 + k] == tail_line(
                rows[r].tail@[k]@,
            ) by {
                assert(lines[r + 1 + k] == more[1 + k]);
                assert(rows[r].tail.deep_view()[k] == rows[r].tail@[k]@);
            }
        } else {
            let below = if r < n {
                rows[r].tail@.len() as int
            } else {
                0
            };
            assert forall|k: int| r < k < n implies lines[k + below] == row_line(
                #[trigger] rows[k],
                tick,
            ) by {
                if k < m {
                    assert(lines[k + below] == before[k + below]);
                }
            }
            assert forall|k: int| 0 <= k < below implies #[trigger] lines[r + 1 + k] == tail_line(
                rows[r].tail@[k]@,
            ) by {
                assert(lines[r + 1 + k] == before[r + 1 + k]);
            }
        }
        assert forall|k: int| 0 <= k <= r && k < n implies #[trigger] lines[k] == row_line(
            rows[k],
            tick,
        ) by {
            if k < m {
                assert(lines[k] == before[k]);
            }
        }
    }
}

/// A line that is taken in is the last one kept; the ones before it stay in order, and
/// only where the limit is reached the oldest goes.
pub proof fn law_the_newest_lines_are_kept(
    buf: Seq<String>,
    line: Seq<char>,
    cap: nat,
    after: Seq<String>,
)
    requires
        pushed(buf, line, cap, after),
        buf.len() <= cap,
        cap > 0,
    ensures
        after.len() > 0,
        after.len() <= cap,
        after[after.len() - 1]@ == line,
        buf.len() < cap ==> after.len() == buf.len() + 1,
        buf.len() == cap ==> after.len() == cap,
        forall|k: int|
            0 <= k < after.len() - 1 ==> #[trigger] after[k] == buf[k + buf.len() + 1
                - after.len()],
{
    assert forall|k: int| 0 <= k < after.len() - 1 implies #[trigger] after[k] == buf[k
        + buf.len() + 1 - after.len()] by {
        assert(after.drop_last()[k] == after[k]);
    }
}

/// A step that begins runs and has printed nothing; every other row stays.
pub proof fn law_one_row_begins(rows: Seq<StepRow>, idx: int, after: Seq<StepRow>)
    requires
        rows_begun(rows, idx, after),
    ensures
        after.len() == rows.len(),
        forall|k: int| 0 <= k < rows.len() && k != idx ==> #[trigger] after[k] == rows[k],
        0 <= idx < rows.len() ==> after[idx].status == Status::Running && after[idx].label
            == rows[idx].label && after[idx].tail@.len() == 0,
{
}

/// A step that ends is shown as it went, with how long it took, and what it printed
/// goes.
pub proof fn law_an_ended_row_says_how_it_went(
    row: StepRow,
    outcome: StepOutcome,
    duration: String,
    after: StepRow,
)
    requires
        ended(row, outcome, duration, after),
    ensures
        after.label == row.label,
        after.duration == Some(duration),
        after.tail@.len() == 0,
        outcome == StepOutcome::Done <==> after.status == Status::Done,
        outcome == StepOutcome::Failed <==> after.status == Status::Failed,
        outcome == StepOutcome::Skipped <==> after.status == Status::Skipped,
{
}

/// What a failed step printed last is shown line by line, all that was kept of it.
pub proof fn law_kept_output_is_shown(list: Renderer)
    ensures
        list.ring@.len() > 0 ==> list.captured().len() == list.ring@.len(),
        forall|k: int|
            0 <= k < list.ring@.len() ==> (#[trigger] list.captured()[k]).len() == 1
                && list.captured()[k][0].text == "  "@ + list.ring@[k]@,
        list.ring@.len() == 0 ==> list.captured().len() == 1,
{
    if list.ring@.len() > 0 {
        assert forall|k: int| 0 <= k < list.ring@.len() implies (#[trigger] list.captured()[k]).len()
            == 1 && list.captured()[k][0].text == "  "@ + list.ring@[k]@ by {
            assert(list.ring.deep_view()[k] == list.ring@[k]@);
        }
    }
}

/// The lines around the list name the project, the step that gets the terminal, and the
/// step whose output follows.
pub proof fn law_headings_name_their_subject(name: Seq<char>)
    ensures
        title_line(name).len() == 2,
        title_line(name)[0].text == "Installing keel steps for "@ && title_line(name)[1].text == name,
        announce_line(name).len() == 4 && announce_line(name)[1].text == "▶"@,
        announce_line(name)[3].text == name,
        summary_title(name).len() == 3 && summary_title(name)[0].text == "Output from `"@,
        summary_title(name)[1].text == name && summary_title(name)[2].text == "`:"@,
{
}

/// The first running row is the one that shows progress, and the number of lines that a
/// frame goes back is that of the last one, as far as it can be remembered.
pub proof fn law_the_first_running_row_counts(rows: Seq<StepRow>, i: int, k: int, n: nat)
    requires
        0 <= k < rows.len(),
    ensures
        running_at(rows, i) ==> 0 <= i < rows.len() && rows[i].status == Status::Running,
        running_at(rows, i) && rows[k].status == Status::Running ==> i <= k,
        n <= 65535 ==> remembered(n) == n,
        n > 65535 ==> remembered(n) == 65535,
{
}

/// The model of a piece has its text and its paint.
pub proof fn law_pieces_say_their_fields(p: Piece)
    ensures
        p.deep_view().text == p.text@ && p.deep_view().paint == p.paint,
{
}

/// A frame goes back over the lines of the one before and draws what is above the list,
/// then the list; the number of the list's lines is kept for the next frame.
pub proof fn law_frames_replace_the_list(
    renderer: Renderer,
    last: u16,
    above: Seq<Seq<PieceModel>>,
    frame: Frame,
)
    requires
        renderer.redraws(last, above, frame),
    ensures
        ({
            let list = list_lines(
                renderer.rows@,
                renderer.spinner_tick as nat,
                renderer.rows@.len(),
            );
            let drawn = frame.lines.deep_view();
            &&& frame.move_up == last
            &&& drawn.len() == above.len() + list.len()
            &&& drawn.take(above.len() as int) == above && drawn.skip(above.len() as int) == list
            &&& list.len() <= 65535 ==> renderer.last_line_count == list.len()
        }),
{
    let list = list_lines(renderer.rows@, renderer.spinner_tick as nat, renderer.rows@.len());
    assert((above + list).take(above.len() as int) =~= above);
    assert((above + list).skip(above.len() as int) =~= list);
}

/// What a failed step printed is shown line by line, indented; a step that printed
/// nothing is said to have.
pub proof fn law_captured_output_is_shown_whole(renderer: Renderer, i: int)
    ensures
        renderer.ring@.len() == 0 ==> renderer.captured() == seq![
            plain_line("  (no output captured)"@),
        ],
        renderer.ring@.len() > 0 ==> renderer.captured().len() == renderer.ring@.len(),
        0 <= i < renderer.ring@.len() ==> renderer.captured()[i] == plain_line(
            "  "@ + renderer.ring@[i]@,
        ),
{
}

/// The spinner has ten frames, one after the other, and begins again.
pub proof fn law_the_spinner_goes_round(tick: nat)
    ensures
        spinner(tick + 10) == spinner(tick),
        tick % 10 == 0 ==> spinner(tick) == "⠋"@ && spinner(tick + 1) == "⠙"@ && spinner(tick + 2)
            == "⠹"@ && spinner(tick + 3) == "⠸"@ && spinner(tick + 4) == "⠼"@,
        tick % 10 == 5 ==> spinner(tick) == "⠴"@ && spinner(tick + 1) == "⠦"@ && spinner(tick + 2)
            == "⠧"@ && spinner(tick + 3) == "⠇"@ && spinner(tick + 4) == "⠏"@,
{
}

} // verus!
