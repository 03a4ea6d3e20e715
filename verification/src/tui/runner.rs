//! The state of one run and its output buffer.
use crate::text;
use crate::text::{concat3, signed_decimal};
use std::collections::VecDeque;
use vstd::prelude::*;

verus! {

/// How many output lines a buffer keeps.
pub const OUTPUT_BUFFER_CAP: usize = 2_000;

/// Where a line of output came from.
#[derive(Debug, Clone, Copy, PartialEq, Eq, Structural)]
pub enum OutputStream {
    Stdout,
    Stderr,
}

/// One captured line of output.
#[derive(Debug, PartialEq, Eq)]
pub struct CapturedLine {
    pub stream: OutputStream,
    pub text: String,
}

/// `buf` with `line` behind it, without its oldest entry when it is full.
pub open spec fn pushed_capped(buf: Seq<CapturedLine>, line: CapturedLine) -> Seq<CapturedLine> {
    if buf.len() == OUTPUT_BUFFER_CAP {
        buf.drop_first().push(line)
    } else {
        buf.push(line)
    }
}

/// `buf` after `lines` arrived one by one.
pub open spec fn absorbed(buf: Seq<CapturedLine>, lines: Seq<CapturedLine>) -> Seq<CapturedLine>
    decreases lines.len(),
{
    if lines.len() == 0 {
        buf
    } else {
        pushed_capped(absorbed(buf, lines.drop_last()), lines.last())
    }
}

/// Appends `line`, dropping the oldest entry of a full buffer.
pub fn push_capped(buf: &mut VecDeque<CapturedLine>, line: CapturedLine)
    ensures
        final(buf)@ == pushed_capped(old(buf)@, line),
{
    if buf.len() == OUTPUT_BUFFER_CAP {
        let _ = buf.pop_front();
        assert(buf@ =~= old(buf)@.drop_first());
    }
    buf.push_back(line);
}

/// Appends `lines` in order and returns how many there were.
pub fn absorb(buf: &mut VecDeque<CapturedLine>, lines: Vec<CapturedLine>) -> (res: usize)
    ensures
        final(buf)@ == absorbed(old(buf)@, lines@),
        res == lines@.len(),
{
    let ghost before = buf@;
    let ghost all = lines@;
    let n: usize = lines.len();
    assert(all.take(0) =~= Seq::<CapturedLine>::empty());
    for line in it: lines
        invariant
            it.seq() == all,
            buf@ == absorbed(before, all.take(it.index() as int)),
    {
        proof {
            let i = it.index() as int;
            assert(all.take(i + 1).drop_last() =~= all.take(i));
            assert(all.take(i + 1).last() == line);
        }
        push_capped(buf, line);
    }
    assert(all.take(n as int) =~= all);
    n
}

/// A buffer within its cap stays within it.
pub proof fn law_buffer_stays_capped(buf: Seq<CapturedLine>, lines: Seq<CapturedLine>)
    requires
        buf.len() <= OUTPUT_BUFFER_CAP,
    ensures
        absorbed(buf, lines).len() <= OUTPUT_BUFFER_CAP,
    decreases lines.len(),
{
    if lines.len() > 0 {
        law_buffer_stays_capped(buf, lines.drop_last());
    }
}

/// A buffer holds the newest lines: what it had, then what arrived, without the
/// oldest beyond the cap.
pub proof fn law_buffer_keeps_the_newest(buf: Seq<CapturedLine>, lines: Seq<CapturedLine>)
    requires
        buf.len() <= OUTPUT_BUFFER_CAP,
    ensures
        ({
            let all = buf + lines;
            let kept = absorbed(buf, lines);
            &&& kept.len() == if all.len() <= OUTPUT_BUFFER_CAP {
                all.len() as int
            } else {
                OUTPUT_BUFFER_CAP as int
            }
            &&& kept == all.skip(all.len() - kept.len())
        }),
    decreases lines.len(),
{
    let all = buf + lines;
    if lines.len() == 0 {
        assert(all =~= buf);
        assert(all.skip(0) =~= buf);
    } else {
        let front = lines.drop_last();
        law_buffer_keeps_the_newest(buf, front);
        let prev = absorbed(buf, front);
        let prior = buf + front;
        assert(all =~= prior.push(lines.last()));
        let kept = absorbed(buf, lines);
        assert(kept =~= all.skip(all.len() - kept.len()));
    }
}

/// How a run ended.
#[derive(Debug, PartialEq, Eq)]
pub enum RunOutcome {
    Exited(i32),
    Failed(String),
    Panicked(String),
}

/// The life of one run.
#[derive(Debug, PartialEq, Eq)]
pub struct RunState {
    pub name: String,
    pub buffer: VecDeque<CapturedLine>,
    pub exit_code: Option<i32>,
    pub error: Option<String>,
}

impl RunState {
    /// A run of `name` that has just begun.
    pub fn begun(name: String) -> (res: Self)
        ensures
            res.name == name,
            res.buffer@.len() == 0,
            res.exit_code is None,
            res.error is None,
    {
        RunState { name, buffer: VecDeque::new(), exit_code: None, error: None }
    }

    /// Whether the run has ended.
    pub open spec fn done(&self) -> bool {
        self.exit_code is Some || self.error is Some
    }

    /// Whether the run has ended.
    pub fn is_done(&self) -> (res: bool)
        ensures
            res == self.done(),
    {
        self.exit_code.is_some() || self.error.is_some()
    }

    /// Takes in the lines that arrived and returns how many there were.
    pub fn drain(&mut self, lines: Vec<CapturedLine>) -> (res: usize)
        ensures
            res == lines@.len(),
            final(self).buffer@ == absorbed(old(self).buffer@, lines@),
            *final(self) == (RunState { buffer: final(self).buffer, ..*old(self) }),
    {
        absorb(&mut self.buffer, lines)
    }

    /// `post` tells how this run ended once `outcome` is known: a run that has ended
    /// keeps its outcome.
    pub open spec fn ends_as(&self, outcome: Option<RunOutcome>, post: RunState) -> bool {
        if self.done() || outcome is None {
            post.exit_code == self.exit_code && post.error == self.error
        } else {
            match outcome->0 {
                RunOutcome::Exited(code) => post.exit_code == Some(code) && post.error is None,
                RunOutcome::Failed(e) => post.error == Some(e) && post.exit_code is None,
                RunOutcome::Panicked(e) => post.exit_code is None && post.error.deep_view() == Some(
                    "task panicked: "@ + e@,
                ),
            }
        }
    }

    /// `post` is this run with the lines that arrived, and its outcome if it ended.
    pub open spec fn advances(
        &self,
        lines: Seq<CapturedLine>,
        outcome: Option<RunOutcome>,
        post: RunState,
    ) -> bool {
        &&& post.name == self.name
        &&& post.buffer@ == absorbed(self.buffer@, lines)
        &&& self.ends_as(outcome, post)
    }

    /// Takes in the lines that arrived, and the outcome if the run ended.
    pub fn advance(&mut self, lines: Vec<CapturedLine>, outcome: Option<RunOutcome>)
        ensures
            old(self).advances(lines@, outcome, *final(self)),
    {
        let _ = self.drain(lines);
        if let Some(o) = outcome {
            self.complete(o);
        }
    }

    /// Records how the run ended; a run that has ended keeps its outcome.
    pub fn complete(&mut self, outcome: RunOutcome)
        ensures
            final(self).name == old(self).name,
            final(self).buffer == old(self).buffer,
            old(self).ends_as(Some(outcome), *final(self)),
    {
        if self.is_done() {
            return ;
        }
        match outcome {
            RunOutcome::Exited(code) => self.exit_code = Some(code),
            RunOutcome::Failed(e) => self.error = Some(e),
            RunOutcome::Panicked(e) => self.error = Some(
                text::concat("task panicked: ", e.as_str()),
            ),
        }
    }

    /// The title of the output pane; `elapsed` is the running time in seconds, as
    /// text.
    pub open spec fn label(&self, elapsed: Seq<char>) -> Seq<char> {
        match (self.exit_code, self.error) {
            (Some(code), _) => if code == 0 {
                self.name@ + " · ✓ exit 0"@
            } else {
                self.name@ + " · ✗ exit "@ + text::signed_digits(code as int)
            },
            (None, Some(e)) => self.name@ + " · ! "@ + e@,
            (None, None) => self.name@ + " · running ("@ + elapsed + "s)"@,
        }
    }

    /// The title of the output pane.
    pub fn status_label(&self, elapsed: &str) -> (res: String)
        ensures
            res@ == self.label(elapsed@),
    {
        if let Some(code) = self.exit_code {
            if code == 0 {
                text::concat(self.name.as_str(), " · ✓ exit 0")
            } else {
                let n = signed_decimal(code as i64);
                concat3(self.name.as_str(), " · ✗ exit ", n.as_str())
            }
        } else if let Some(err) = &self.error {
            concat3(self.name.as_str(), " · ! ", err.as_str())
        } else {
            let mut out = concat3(self.name.as_str(), " · running (", elapsed);
            out.append("s)");
            out
        }
    }
}

/// A run that has ended keeps how it ended. One that has not takes the exit code it
/// left with, or the reason why it left none.
pub proof fn law_runs_end_once(run: RunState, outcome: Option<RunOutcome>, post: RunState)
    requires
        run.ends_as(outcome, post),
    ensures
        run.exit_code is Some || run.error is Some || outcome is None ==> post.exit_code
            == run.exit_code && post.error == run.error,
        run.exit_code is None && run.error is None ==> match outcome {
            None => true,
            Some(RunOutcome::Exited(code)) => post.exit_code == Some(code) && post.error is None,
            Some(RunOutcome::Failed(e)) => post.exit_code is None && post.error == Some(e),
            Some(RunOutcome::Panicked(e)) => post.exit_code is None && post.error is Some
                && post.error->0@ == "task panicked: "@ + e@,
        },
{
}

/// A run keeps its name and the newest two thousand lines of what it printed.
pub proof fn law_runs_keep_what_they_printed(
    run: RunState,
    lines: Seq<CapturedLine>,
    outcome: Option<RunOutcome>,
    post: RunState,
)
    requires
        run.advances(lines, outcome, post),
        run.buffer@.len() <= 2_000,
    ensures
        ({
            let all = run.buffer@ + lines;
            &&& post.name == run.name
            &&& all.len() <= 2_000 ==> post.buffer@ == all
            &&& all.len() > 2_000 ==> post.buffer@ == all.skip(all.len() - 2_000)
            &&& run.ends_as(outcome, post)
        }),
{
    law_buffer_keeps_the_newest(run.buffer@, lines);
    let all = run.buffer@ + lines;
    assert(all.skip(0) =~= all);
}

/// The title of a run is its name and how it stands: running, since when; ended, with
/// which code; or failed, why.
pub proof fn law_titles_say_how_a_run_stands(run: RunState, elapsed: Seq<char>)
    ensures
        ({
            let label = run.label(elapsed);
            &&& run.exit_code == Some(0i32) ==> label == run.name@ + " · ✓ exit 0"@
            &&& run.exit_code is Some && run.exit_code->0 != 0 ==> label == run.name@
                + " · ✗ exit "@ + text::signed_digits(run.exit_code->0 as int)
            &&& run.exit_code is None && run.error is Some ==> label == run.name@ + " · ! "@
                + run.error->0@
            &&& run.exit_code is None && run.error is None ==> label == run.name@
                + " · running ("@ + elapsed + "s)"@
        }),
{
}

} // verus!
