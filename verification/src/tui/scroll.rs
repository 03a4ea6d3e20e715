//! Where the body of the diff view stands.
use crate::tui::diff::{DiffLine, DiffLineKind};
use crate::tui::keys::Scroll;
use crate::tui::panes;
use vstd::prelude::*;

verus! {

/// Where the body begins, and whether the first `g` of two has been typed.
#[derive(Debug, Clone, Copy, PartialEq, Eq, Structural)]
pub struct BodyScroll {
    /// The line at the top.
    pub top: usize,
    pub chord: bool,
}

/// The line at the top where the last lines show.
pub open spec fn last_top(total: nat, height: nat) -> int {
    panes::tail_start(total, height)
}

/// `top` where it is a place that the body can stand at, else the nearest such place.
pub open spec fn clamped(top: int, total: nat, height: nat) -> int {
    if top < 0 {
        0
    } else if top > last_top(total, height) {
        last_top(total, height)
    } else {
        top
    }
}

/// Half the height of the body, and at least a line.
pub open spec fn half_page(height: nat) -> int {
    if height / 2 > 1 {
        height as int / 2
    } else {
        1
    }
}

/// The first hunk header at or after the line `from`.
pub open spec fn hunk_from(lines: Seq<DiffLine>, from: int) -> Option<int>
    decreases lines.len() - from,
{
    if from >= lines.len() {
        None
    } else if lines[from].kind == DiffLineKind::Hunk {
        Some(from)
    } else {
        hunk_from(lines, from + 1)
    }
}

/// The last hunk header before the line `end`.
pub open spec fn hunk_before(lines: Seq<DiffLine>, end: int) -> Option<int>
    decreases end,
{
    if end <= 0 {
        None
    } else if lines[end - 1].kind == DiffLineKind::Hunk {
        Some(end - 1)
    } else {
        hunk_before(lines, end - 1)
    }
}

/// The line that a body which begins at `top` is to begin at.
pub open spec fn wanted_top(
    lines: Seq<DiffLine>,
    top: int,
    chord: bool,
    scroll: Scroll,
    height: nat,
) -> int {
    match scroll {
        Scroll::LineDown => top + 1,
        Scroll::LineUp => top - 1,
        Scroll::HalfPageDown => top + half_page(height),
        Scroll::HalfPageUp => top - half_page(height),
        Scroll::Top => 0,
        Scroll::Bottom => last_top(lines.len(), height),
        Scroll::NextHunk => match hunk_from(lines, top + 1) {
            Some(at) => at,
            None => top,
        },
        Scroll::PreviousHunk => match hunk_before(lines, top) {
            Some(at) => at,
            None => top,
        },
        Scroll::TopChord => if chord {
            0
        } else {
            top
        },
    }
}

/// Where the body stands after it has moved. It starts from the nearest place that it
/// can stand at, and a second `g` leads to the top only behind the first.
pub open spec fn moved(
    lines: Seq<DiffLine>,
    before: BodyScroll,
    scroll: Scroll,
    height: nat,
) -> (int, bool) {
    let top = clamped(before.top as int, lines.len(), height);
    (
        clamped(wanted_top(lines, top, before.chord, scroll, height), lines.len(), height),
        scroll == Scroll::TopChord && !before.chord,
    )
}

fn next_hunk(lines: &Vec<DiffLine>, from: usize) -> (res: Option<usize>)
    requires
        from <= lines@.len(),
    ensures
        match res {
            Some(at) => hunk_from(lines@, from as int) == Some(at as int) && at < lines@.len(),
            None => hunk_from(lines@, from as int) is None,
        },
{
    let mut i: usize = from;
    while i < lines.len()
        invariant
            from <= i <= lines@.len(),
            hunk_from(lines@, i as int) == hunk_from(lines@, from as int),
        decreases lines@.len() - i,
    {
        if lines[i].kind == DiffLineKind::Hunk {
            return Some(i);
        }
        i += 1;
    }
    None
}

fn previous_hunk(lines: &Vec<DiffLine>, end: usize) -> (res: Option<usize>)
    requires
        end <= lines@.len(),
    ensures
        match res {
            Some(at) => hunk_before(lines@, end as int) == Some(at as int) && at < end,
            None => hunk_before(lines@, end as int) is None,
        },
{
    let mut i: usize = end;
    while i > 0
        invariant
            i <= end <= lines@.len(),
            hunk_before(lines@, i as int) == hunk_before(lines@, end as int),
        decreases i,
    {
        if lines[i - 1].kind == DiffLineKind::Hunk {
            return Some(i - 1);
        }
        i -= 1;
    }
    None
}

fn bottom_top(total: usize, height: usize) -> (res: usize)
    ensures
        res == last_top(total as nat, height as nat),
{
    if total > height {
        total - height
    } else {
        0
    }
}

fn at_most(n: usize, most: usize) -> (res: usize)
    ensures
        res == if n > most {
            most
        } else {
            n
        },
{
    if n > most {
        most
    } else {
        n
    }
}

impl BodyScroll {
    /// A body that has not been moved: the last lines show.
    pub fn new(total: usize, height: usize) -> (res: Self)
        ensures
            res.top == last_top(total as nat, height as nat),
            !res.chord,
    {
        BodyScroll { top: bottom_top(total, height), chord: false }
    }

    /// Another key than `g` was typed: the next `g` is the first of two.
    pub fn release(&mut self)
        ensures
            final(self).top == old(self).top,
            !final(self).chord,
    {
        self.chord = false;
    }

    /// Moves the body.
    pub fn apply(&mut self, lines: &Vec<DiffLine>, scroll: Scroll, height: usize)
        ensures
            (final(self).top as int, final(self).chord) == moved(
                lines@,
                *old(self),
                scroll,
                height as nat,
            ),
    {
        let last: usize = bottom_top(lines.len(), height);
        let top: usize = at_most(self.top, last);
        let half: usize = if height / 2 > 1 {
            height / 2
        } else {
            1
        };
        let want: usize = match scroll {
            Scroll::LineDown => if top < last {
                top + 1
            } else {
                last
            },
            Scroll::LineUp => if top > 0 {
                top - 1
            } else {
                0
            },
            Scroll::HalfPageDown => if last - top > half {
                top + half
            } else {
                last
            },
            Scroll::HalfPageUp => if top > half {
                top - half
            } else {
                0
            },
            Scroll::Top => 0,
            Scroll::Bottom => last,
            Scroll::NextHunk => if top < lines.len() {
                match next_hunk(lines, top + 1) {
                    Some(at) => at,
                    None => top,
                }
            } else {
                top
            },
            Scroll::PreviousHunk => match previous_hunk(lines, top) {
                Some(at) => at,
                None => top,
            },
            Scroll::TopChord => if self.chord {
                0
            } else {
                top
            },
        };
        self.top = at_most(want, last);
        self.chord = match scroll {
            Scroll::TopChord => !self.chord,
            _ => false,
        };
    }
}

/// The body never moves past its last lines.
pub proof fn law_body_stays_inside(
    lines: Seq<DiffLine>,
    before: BodyScroll,
    scroll: Scroll,
    height: nat,
)
    ensures
        0 <= moved(lines, before, scroll, height).0 <= last_top(lines.len(), height),
{
}

/// A line up takes back a line down, unless the last lines show already; and a half
/// page up a half page down, unless the last lines show behind it.
pub proof fn law_up_takes_down_back(
    lines: Seq<DiffLine>,
    before: BodyScroll,
    lower: BodyScroll,
    height: nat,
    page: bool,
)
    requires
        ({
            let step = if page {
                half_page(height)
            } else {
                1
            };
            before.top + step <= last_top(lines.len(), height)
        }),
        (lower.top as int, lower.chord) == moved(
            lines,
            before,
            if page {
                Scroll::HalfPageDown
            } else {
                Scroll::LineDown
            },
            height,
        ),
    ensures
        moved(
            lines,
            lower,
            if page {
                Scroll::HalfPageUp
            } else {
                Scroll::LineUp
            },
            height,
        ).0 == before.top,
{
}

/// Two `g` in a row lead to the top.
pub proof fn law_two_chords_lead_to_the_top(
    lines: Seq<DiffLine>,
    before: BodyScroll,
    between: BodyScroll,
    height: nat,
)
    requires
        !before.chord,
        (between.top as int, between.chord) == moved(lines, before, Scroll::TopChord, height),
    ensures
        moved(lines, between, Scroll::TopChord, height) == (0int, false),
{
}

/// Whether line `k` is the first hunk header at or behind the line `from`.
pub open spec fn next_header(lines: Seq<DiffLine>, from: int, k: int) -> bool {
    &&& from <= k < lines.len() && lines[k].kind == DiffLineKind::Hunk
    &&& forall|i: int| from <= i < k ==> (#[trigger] lines[i]).kind != DiffLineKind::Hunk
}

/// Whether line `k` is the last hunk header before the line `end`.
pub open spec fn header_before(lines: Seq<DiffLine>, end: int, k: int) -> bool {
    &&& 0 <= k < end && lines[k].kind == DiffLineKind::Hunk
    &&& forall|i: int| k < i < end ==> (#[trigger] lines[i]).kind != DiffLineKind::Hunk
}

/// Where a move leads: by a line, by half a page but at least a line, to the top or to
/// the last lines, all within the body.
pub proof fn law_where_a_move_leads(
    lines: Seq<DiffLine>,
    before: BodyScroll,
    scroll: Scroll,
    height: nat,
)
    ensures
        ({
            let end = if lines.len() > height {
                lines.len() - height
            } else {
                0
            };
            let top = if before.top < end {
                before.top as int
            } else {
                end
            };
            let half = if height < 4 {
                1
            } else {
                height as int / 2
            };
            let step = if scroll == Scroll::HalfPageDown || scroll == Scroll::HalfPageUp {
                half
            } else {
                1
            };
            let (to, chord) = moved(lines, before, scroll, height);
            &&& scroll == Scroll::LineDown || scroll == Scroll::HalfPageDown ==> to == if top + step
                < end {
                top + step
            } else {
                end
            }
            &&& scroll == Scroll::LineUp || scroll == Scroll::HalfPageUp ==> to == if top > step {
                top - step
            } else {
                0
            }
            &&& scroll == Scroll::Top ==> to == 0
            &&& scroll == Scroll::Bottom ==> to == end
            &&& scroll == Scroll::TopChord && before.chord ==> to == 0
            &&& scroll == Scroll::TopChord && !before.chord ==> to == top
            &&& chord <==> scroll == Scroll::TopChord && !before.chord
        }),
{
}

/// The next hunk is the first one below the line at the top, and the one before is the
/// last above it; where there is none, or it lies among the last lines, the body goes as
/// far as it can.
pub proof fn law_hunks_are_reached_one_by_one(
    lines: Seq<DiffLine>,
    before: BodyScroll,
    height: nat,
    k: int,
)
    requires
        lines.len() >= height,
        before.top <= lines.len() - height,
    ensures
        ({
            let end = lines.len() - height;
            let top = before.top as int;
            let down = moved(lines, before, Scroll::NextHunk, height).0;
            let up = moved(lines, before, Scroll::PreviousHunk, height).0;
            &&& next_header(lines, top + 1, k) ==> down == if k < end {
                k
            } else {
                end
            }
            &&& (forall|i: int|
                top < i < lines.len() ==> (#[trigger] lines[i]).kind != DiffLineKind::Hunk) ==> down
                == top
            &&& header_before(lines, top, k) ==> up == k
            &&& (forall|i: int| 0 <= i < top ==> (#[trigger] lines[i]).kind != DiffLineKind::Hunk)
                ==> up == top
        }),
{
    lemma_hunk_from(lines, before.top + 1);
    lemma_hunk_before(lines, before.top as int);
}

proof fn lemma_hunk_from(lines: Seq<DiffLine>, from: int)
    requires
        0 <= from,
    ensures
        match hunk_from(lines, from) {
            Some(k) => next_header(lines, from, k),
            None => forall|i: int|
                from <= i < lines.len() ==> (#[trigger] lines[i]).kind != DiffLineKind::Hunk,
        },
    decreases lines.len() - from,
{
    if from < lines.len() && lines[from].kind != DiffLineKind::Hunk {
        lemma_hunk_from(lines, from + 1);
    }
}

proof fn lemma_hunk_before(lines: Seq<DiffLine>, end: int)
    requires
        end <= lines.len(),
    ensures
        match hunk_before(lines, end) {
            Some(k) => header_before(lines, end, k),
            None => forall|i: int|
                0 <= i < end ==> (#[trigger] lines[i]).kind != DiffLineKind::Hunk,
        },
    decreases end,
{
    if end > 0 && lines[end - 1].kind != DiffLineKind::Hunk {
        lemma_hunk_before(lines, end - 1);
    }
}

} // verus!
