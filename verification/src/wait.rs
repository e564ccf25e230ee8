//! Waiting for something to happen: what each event means to someone who
//! waits for a child to end, for a line to appear, for a signal, or for all
//! children to be gone.

use crate::event::{Event, EventView};
use crate::muxer::{ChildInfo, Muxer};
use crate::pid::Pid;
use crate::signal::Signal;
use crate::status::ExitStatus;
use regex::Regex;
use vstd::prelude::*;
use vstd::std_specs::convert::FromSpecImpl;

verus! {

/// `regex::Regex`, a compiled regular expression. Verus sees nothing inside.
#[verifier::external_type_specification]
#[verifier::external_body]
pub struct ExRegex(Regex);

/// What `Regex::is_match` returns: whether the expression matches somewhere
/// in the text.
pub uninterp spec fn regex_is_match(re: Regex, haystack: Seq<char>) -> bool;

/// Whether `re` matches somewhere in `line`.
///
/// Trusted: this is `Regex::is_match`, which does not panic and whose answer
/// depends on the expression and the text alone. Which texts an expression
/// matches is not stated: the answer only has a name.
#[verifier::external_body]
fn is_match(re: &Regex, line: &str) -> (found: bool)
    ensures
        found == regex_is_match(*re, line@),
{
    re.is_match(line)
}

/// Why a wait ended without what was waited for.
#[derive(Debug)]
pub enum Error {
    /// The child ended while something else was expected of it.
    UnexpectedChildTermination { pid: Pid, prog_path: String, exit_status: ExitStatus },
    /// A signal arrived.
    UnexpectedSignal { signal: Signal },
}

/// An error as contracts see it.
pub enum ErrorView {
    UnexpectedChildTermination { pid: Pid, prog_path: Seq<char>, exit_status: ExitStatus },
    UnexpectedSignal { signal: Signal },
}

impl View for Error {
    type V = ErrorView;

    open spec fn view(&self) -> ErrorView {
        match self {
            Error::UnexpectedChildTermination {
                pid,
                prog_path,
                exit_status,
            } => ErrorView::UnexpectedChildTermination {
                pid: *pid,
                prog_path: prog_path@,
                exit_status: *exit_status,
            },
            Error::UnexpectedSignal { signal } => ErrorView::UnexpectedSignal { signal: *signal },
        }
    }
}

impl From<Signal> for Error {
    fn from(signal: Signal) -> (error: Error) {
        Error::UnexpectedSignal { signal }
    }
}

impl FromSpecImpl<Signal> for Error {
    open spec fn obeys_from_spec() -> bool {
        true
    }

    open spec fn from_spec(signal: Signal) -> Error {
        Error::UnexpectedSignal { signal }
    }
}

/// The answer of a wait as contracts see it: `None` while the wait goes on.
pub open spec fn answer_view<T>(answer: Option<Result<T, Error>>) -> Option<Result<T, ErrorView>> {
    match answer {
        None => None,
        Some(Ok(v)) => Some(Ok(v)),
        Some(Err(e)) => Some(Err(e@)),
    }
}

/// The event as contracts see it, where there is one.
pub open spec fn event_view(event: Option<&Event>) -> Option<EventView> {
    match event {
        None => None,
        Some(e) => Some(e@),
    }
}

/// What a wait for a signal makes of an event: the signal, if the event is
/// one.
pub open spec fn signal_answer(event: EventView) -> Option<Signal> {
    match event {
        EventView::SignalReceived { signal } => Some(signal),
        _ => None,
    }
}

/// What a wait for the end of `child` makes of what is known: before any
/// event, the status that is published already; then the status with which
/// the child's termination is reported. A signal ends the wait with an error.
pub open spec fn wait_answer(
    published: Option<ExitStatus>,
    child: Pid,
    event: Option<EventView>,
) -> Option<Result<ExitStatus, ErrorView>> {
    match event {
        None => match published {
            Some(status) => Some(Ok(status)),
            None => None,
        },
        Some(EventView::ChildTerminated { pid, exit_status, .. }) => if pid == child {
            Some(Ok(exit_status))
        } else {
            None
        },
        Some(EventView::SignalReceived { signal }) => Some(
            Err(ErrorView::UnexpectedSignal { signal }),
        ),
        Some(_) => None,
    }
}

/// What a wait for a matching line of `child` makes of what is known. Before
/// any event, a status that is published already is an error; then the
/// child's termination is an error, a line of the child that matches ends
/// the wait, and a signal is an error. `line_matches` says whether the line
/// of the event matches.
pub open spec fn match_answer(
    published: Option<ExitStatus>,
    child: Pid,
    prog_path: Seq<char>,
    event: Option<EventView>,
    line_matches: bool,
) -> Option<Result<(), ErrorView>> {
    match event {
        None => match published {
            Some(exit_status) => Some(
                Err(ErrorView::UnexpectedChildTermination { pid: child, prog_path, exit_status }),
            ),
            None => None,
        },
        Some(EventView::ChildTerminated { pid, prog_path: path, exit_status }) => if pid == child {
            Some(Err(ErrorView::UnexpectedChildTermination { pid, prog_path: path, exit_status }))
        } else {
            None
        },
        Some(EventView::ChildWrote { pid, .. }) => if pid == child && line_matches {
            Some(Ok(()))
        } else {
            None
        },
        Some(EventView::FdClosed { .. }) => None,
        Some(EventView::SignalReceived { signal }) => Some(
            Err(ErrorView::UnexpectedSignal { signal }),
        ),
    }
}

/// Whether the event is a line that `re` matches.
pub open spec fn line_matches(event: Option<EventView>, re: Regex) -> bool {
    event matches Some(EventView::ChildWrote { line, .. }) && regex_is_match(re, line)
}

/// What a wait for a matching line makes of an event, given whether the line
/// of the event matches.
pub fn match_verdict(
    published: Option<ExitStatus>,
    child: &ChildInfo,
    event: Option<&Event>,
    line_matches: bool,
) -> (answer: Option<Result<(), Error>>)
    ensures
        answer_view(answer) == match_answer(
            published,
            child.pid,
            child.prog_path@,
            event_view(event),
            line_matches,
        ),
{
    match event {
        None => match published {
            Some(exit_status) => Some(
                Err(
                    Error::UnexpectedChildTermination {
                        pid: child.pid,
                        prog_path: child.prog_path.clone(),
                        exit_status,
                    },
                ),
            ),
            None => None,
        },
        Some(Event::ChildTerminated { pid, prog_path, exit_status }) => {
            if *pid == child.pid {
                Some(
                    Err(
                        Error::UnexpectedChildTermination {
                            pid: *pid,
                            prog_path: prog_path.clone(),
                            exit_status: *exit_status,
                        },
                    ),
                )
            } else {
                None
            }
        },
        Some(Event::ChildWrote { pid, .. }) => {
            if *pid == child.pid && line_matches {
                Some(Ok(()))
            } else {
                None
            }
        },
        Some(Event::FdClosed { .. }) => None,
        Some(Event::SignalReceived { signal }) => Some(Err(Error::from(*signal))),
    }
}

/// The count of terminations that a cleanup still waits for, and the pids
/// that it asks to terminate.
#[derive(Debug)]
pub struct Cleanup {
    /// The children that are alive as far as is known.
    pub kill: Vec<Pid>,
    /// How many terminations are still to be reported.
    pub remaining: usize,
}

impl Cleanup {
    /// The count after `event`: a reported termination takes one off.
    pub open spec fn counted(remaining: usize, event: EventView) -> usize {
        if event is ChildTerminated && remaining > 0 {
            (remaining - 1) as usize
        } else {
            remaining
        }
    }

    /// Takes note of an event. The cleanup is done when a termination is
    /// reported and none remains to be reported after it.
    pub fn observe(&mut self, event: &Event) -> (done: bool)
        ensures
            final(self).kill == old(self).kill,
            final(self).remaining == Cleanup::counted(old(self).remaining, event@),
            done == (event@ is ChildTerminated && final(self).remaining == 0),
    {
        match event {
            Event::ChildTerminated { .. } => {
                if self.remaining > 0 {
                    self.remaining = self.remaining - 1;
                }
                self.remaining == 0
            },
            _ => false,
        }
    }
}

impl Muxer {
    /// What a wait for a signal makes of an event.
    pub fn wait_for_signal(event: &Event) -> (answer: Option<Signal>)
        ensures
            answer == signal_answer(event@),
    {
        match event {
            Event::SignalReceived { signal } => Some(*signal),
            _ => None,
        }
    }

    /// What a wait for the end of `child` makes of what is known: with no
    /// event, of what is published; else of the event.
    pub fn wait(&self, child: &ChildInfo, event: Option<&Event>) -> (answer: Option<
        Result<ExitStatus, Error>,
    >)
        ensures
            answer_view(answer) == wait_answer(
                self@.published(child.ticket),
                child.pid,
                event_view(event),
            ),
    {
        match event {
            None => match child.exit_status(self) {
                Some(status) => Some(Ok(status)),
                None => None,
            },
            Some(Event::ChildTerminated { pid, exit_status, .. }) => {
                if *pid == child.pid {
                    Some(Ok(*exit_status))
                } else {
                    None
                }
            },
            Some(Event::SignalReceived { signal }) => Some(Err(Error::from(*signal))),
            Some(_) => None,
        }
    }

    /// What a wait for a line of `child` that `re` matches makes of what is
    /// known: with no event, of what is published; else of the event. The
    /// expression is tried only on lines that `child` wrote.
    pub fn wait_for_match(&self, child: &ChildInfo, event: Option<&Event>, re: &Regex) -> (answer:
        Option<Result<(), Error>>)
        ensures
            answer_view(answer) == match_answer(
                self@.published(child.ticket),
                child.pid,
                child.prog_path@,
                event_view(event),
                line_matches(event_view(event), *re),
            ),
    {
        let published = child.exit_status(self);
        let found = match event {
            Some(Event::ChildWrote { pid, line, .. }) => *pid == child.pid && is_match(
                re,
                line.as_str(),
            ),
            _ => false,
        };
        match_verdict(published, child, event, found)
    }

    /// The plan of a cleanup: the live children, which are to be asked to
    /// terminate, and the number of terminations that will be reported, which
    /// counts the queued ones too.
    pub fn cleanup(&self) -> (plan: Cleanup)
        ensures
            plan.kill@.no_duplicates(),
            forall|p: Pid| plan.kill@.contains(p) <==> self@.children.contains_key(p.inner),
            plan.remaining == if plan.kill@.len() + self@.waits.len() <= usize::MAX {
                plan.kill@.len() + self@.waits.len()
            } else {
                usize::MAX as nat
            },
    {
        let kill = self.live_pids();
        let queued = self.queued();
        let remaining = if kill.len() <= usize::MAX - queued {
            kill.len() + queued
        } else {
            usize::MAX
        };
        Cleanup { kill, remaining }
    }
}

} // verus!
