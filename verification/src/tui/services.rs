//! Log panes of services.
use crate::container::{BackendError, ServiceStatus};
use crate::text;
use crate::tui::runner;
use crate::tui::runner::{absorb, CapturedLine};
use std::collections::VecDeque;
use vstd::prelude::*;

verus! {

/// The state of one service pane.
#[derive(Debug, PartialEq, Eq)]
pub struct ServicePane {
    pub name: String,
    pub buffer: VecDeque<CapturedLine>,
    /// Whether a process follows the service's log.
    pub tailing: bool,
    pub status: Option<ServiceStatus>,
    /// Why the log cannot be followed.
    pub tail_error: Option<String>,
}

/// How a log process ended.
#[derive(Debug, Clone, Copy, PartialEq, Eq, Structural)]
pub struct TailExit {
    pub success: bool,
    pub code: Option<i32>,
}

/// The texts of `lines`.
pub open spec fn texts_of(lines: Seq<CapturedLine>) -> Seq<Seq<char>> {
    lines.map_values(|l: CapturedLine| l.text@)
}

impl TailExit {
    /// What the pane shows for this exit after the given output.
    pub open spec fn complaint(self, lines: Seq<CapturedLine>) -> Seq<char> {
        let printed = text::joined(texts_of(lines), "  "@);
        if printed.len() > 0 {
            printed
        } else {
            "tail exited "@ + match self.code {
                Some(c) => text::signed_digits(c as int),
                None => "?"@,
            }
        }
    }
}

/// The text of a backend error.
pub open spec fn error_text(e: BackendError) -> Seq<char> {
    match e {
        BackendError::Reported(msg) => msg@,
        BackendError::BinaryNotFound(name) => "backend binary not found: "@ + name@,
        BackendError::Other(msg) => msg@,
    }
}

/// The text of a backend error.
pub fn format_error(e: &BackendError) -> (res: String)
    ensures
        res@ == error_text(*e),
{
    match e {
        BackendError::Reported(msg) => msg.clone(),
        BackendError::BinaryNotFound(name) => text::concat(
            "backend binary not found: ",
            name.as_str(),
        ),
        BackendError::Other(msg) => msg.clone(),
    }
}

impl ServicePane {
    /// An empty pane for the service `name`.
    pub fn new(name: String) -> (res: Self)
        ensures
            res.is_new(name),
    {
        ServicePane {
            name,
            buffer: VecDeque::new(),
            tailing: false,
            status: None,
            tail_error: None,
        }
    }

    /// The pane that [`ServicePane::new`] makes.
    pub open spec fn is_new(&self, name: String) -> bool {
        &&& self.name == name
        &&& self.buffer@.len() == 0
        &&& !self.tailing
        &&& self.status is None
        &&& self.tail_error is None
    }

    /// Whether a process follows the service's log.
    pub fn is_tailing(&self) -> (res: bool)
        ensures
            res == self.tailing,
    {
        self.tailing
    }

    /// Records the outcome of starting to follow the log. A pane that already
    /// follows it stays as it is.
    pub fn ensure_tailing(&mut self, outcome: Result<(), BackendError>)
        ensures
            old(self).tailing ==> *final(self) == *old(self),
            !old(self).tailing ==> match outcome {
                Ok(_) => *final(self) == (ServicePane {
                    tailing: true,
                    tail_error: None,
                    ..*old(self)
                }),
                Err(e) => {
                    &&& *final(self) == (ServicePane {
                        tail_error: final(self).tail_error,
                        ..*old(self)
                    })
                    &&& final(self).tail_error.deep_view() == Some(error_text(e))
                },
            },
    {
        if self.tailing {
            return ;
        }
        match outcome {
            Ok(_) => {
                self.tailing = true;
                self.tail_error = None;
            },
            Err(e) => {
                self.tail_error = Some(format_error(&e));
            },
        }
    }

    /// Takes in the lines that arrived and returns how many there were.
    pub fn drain(&mut self, lines: Vec<CapturedLine>) -> (res: usize)
        ensures
            res == lines@.len(),
            final(self).buffer@ == runner::absorbed(old(self).buffer@, lines@),
            *final(self) == (ServicePane { buffer: final(self).buffer, ..*old(self) }),
    {
        absorb(&mut self.buffer, lines)
    }

    /// The texts of the buffered lines.
    fn texts(&self) -> (res: Vec<String>)
        ensures
            res.deep_view() == texts_of(self.buffer@),
    {
        let mut out: Vec<String> = Vec::new();
        let mut i: usize = 0;
        while i < self.buffer.len()
            invariant
                i <= self.buffer@.len(),
                out.deep_view() == texts_of(self.buffer@.take(i as int)),
            decreases self.buffer@.len() - i,
        {
            let ghost before = out.deep_view();
            out.push(self.buffer[i].text.clone());
            assert(out.deep_view() =~= before.push(self.buffer@[i as int].text@));
            assert(texts_of(self.buffer@.take(i + 1)) =~= before.push(
                self.buffer@[i as int].text@,
            ));
            i += 1;
        }
        assert(self.buffer@.take(i as int) =~= self.buffer@);
        out
    }

    /// `post` is this pane with the lines that arrived and, if its process ended,
    /// what that changes: a failed one turns what was printed into the pane's error.
    pub open spec fn polled(
        &self,
        lines: Seq<CapturedLine>,
        exit: Option<TailExit>,
        post: ServicePane,
    ) -> bool {
        let buffer = runner::absorbed(self.buffer@, lines);
        &&& post.name == self.name
        &&& post.status == self.status
        &&& if exit is None || !self.tailing {
            post.tailing == self.tailing && post.tail_error == self.tail_error && post.buffer@
                == buffer
        } else if exit->0.success {
            !post.tailing && post.tail_error == self.tail_error && post.buffer@ == buffer
        } else {
            !post.tailing && post.tail_error.deep_view() == Some(exit->0.complaint(buffer))
                && post.buffer@.len() == 0
        }
    }

    /// Takes in the lines that arrived, and the end of the process if there was one.
    pub fn poll_tail(&mut self, lines: Vec<CapturedLine>, exit: Option<TailExit>)
        ensures
            old(self).polled(lines@, exit, *final(self)),
    {
        match exit {
            Some(e) => self.tail_exited(lines, e),
            None => {
                let _ = self.drain(lines);
            },
        }
    }

    /// Records that the log process ended after printing `lines`. A failed one
    /// turns what was printed into the pane's error; one that ended well leaves
    /// the buffer and lets the pane follow the log anew.
    pub fn tail_exited(&mut self, lines: Vec<CapturedLine>, exit: TailExit)
        ensures
            old(self).polled(lines@, Some(exit), *final(self)),
    {
        let _ = self.drain(lines);
        if !self.tailing {
            return ;
        }
        self.tailing = false;
        if !exit.success {
            let texts = self.texts();
            let combined = text::join(&texts, "  ");
            if combined.as_str().is_empty() {
                let code = match exit.code {
                    Some(c) => text::signed_decimal(c as i64),
                    None => "?".to_owned(),
                };
                self.tail_error = Some(text::concat("tail exited ", code.as_str()));
            } else {
                self.tail_error = Some(combined);
            }
            self.buffer.clear();
        }
    }
}

/// A pane keeps the newest lines of the log. While its process goes on, and where it
/// ended well, they stay; where it ended badly they are its error instead, with two
/// blanks between them, or the exit code where nothing was printed.
pub proof fn law_a_failed_log_says_why(
    pane: ServicePane,
    lines: Seq<CapturedLine>,
    exit: Option<TailExit>,
    post: ServicePane,
)
    requires
        pane.polled(lines, exit, post),
        pane.buffer@.len() <= 2_000,
    ensures
        ({
            let all = pane.buffer@ + lines;
            let kept = if all.len() <= 2_000 {
                all
            } else {
                all.skip(all.len() - 2_000)
            };
            let ended = pane.tailing && exit is Some;
            let failed = ended && !exit->0.success;
            let printed = text::joined(Seq::new(kept.len(), |i: int| kept[i].text@), "  "@);
            &&& post.name == pane.name && post.status == pane.status
            &&& post.tailing <==> pane.tailing && exit is None
            &&& !failed ==> post.buffer@ == kept && post.tail_error == pane.tail_error
            &&& failed ==> post.buffer@.len() == 0 && post.tail_error is Some
            &&& failed && printed.len() > 0 ==> post.tail_error->0@ == printed
            &&& failed && printed.len() == 0 && exit->0.code is Some ==> post.tail_error->0@
                == "tail exited "@ + text::signed_digits(exit->0.code->0 as int)
            &&& failed && printed.len() == 0 && exit->0.code is None ==> post.tail_error->0@
                == "tail exited "@ + "?"@
        }),
{
    runner::law_buffer_keeps_the_newest(pane.buffer@, lines);
    let all = pane.buffer@ + lines;
    assert(all.skip(0) =~= all);
    let kept = if all.len() <= 2_000 {
        all
    } else {
        all.skip(all.len() - 2_000)
    };
    assert(texts_of(kept) =~= Seq::new(kept.len(), |i: int| kept[i].text@));
}

/// An error of the backend is shown as it was reported; a missing program is named.
pub proof fn law_backend_errors_are_told(e: BackendError)
    ensures
        match e {
            BackendError::Reported(msg) => error_text(e) == msg@,
            BackendError::Other(msg) => error_text(e) == msg@,
            BackendError::BinaryNotFound(name) => error_text(e) == "backend binary not found: "@
                + name@,
        },
{
}

/// A fresh pane has its name and nothing to show.
pub proof fn law_fresh_panes_are_empty(pane: ServicePane, name: String)
    requires
        pane.is_new(name),
    ensures
        pane.name == name && pane.buffer@.len() == 0 && !pane.tailing,
        pane.status is None && pane.tail_error is None,
{
}

} // verus!
