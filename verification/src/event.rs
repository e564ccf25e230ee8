//! What the multiplexer reports to its user.

use crate::childout::FdTag;
use crate::pid::Pid;
use crate::signal::Signal;
use crate::status::ExitStatus;
use vstd::prelude::*;

verus! {

/// A user-facing event.
#[derive(Debug)]
pub enum Event {
    /// A child has ended.
    ChildTerminated { pid: Pid, prog_path: String, exit_status: ExitStatus },
    /// A child wrote one line to one of its captured pipes.
    ChildWrote { pid: Pid, prog_path: String, tag: FdTag, line: String },
    /// One of a child's captured pipes was closed by every writer.
    FdClosed { pid: Pid, prog_path: String, tag: FdTag },
    /// The multiplexer's own process received a signal.
    SignalReceived { signal: Signal },
}

/// An event as contracts see it.
pub enum EventView {
    ChildTerminated { pid: Pid, prog_path: Seq<char>, exit_status: ExitStatus },
    ChildWrote { pid: Pid, prog_path: Seq<char>, tag: FdTag, line: Seq<char> },
    FdClosed { pid: Pid, prog_path: Seq<char>, tag: FdTag },
    SignalReceived { signal: Signal },
}

impl View for Event {
    type V = EventView;

    open spec fn view(&self) -> EventView {
        match self {
            Event::ChildTerminated { pid, prog_path, exit_status } => EventView::ChildTerminated {
                pid: *pid,
                prog_path: prog_path@,
                exit_status: *exit_status,
            },
            Event::ChildWrote { pid, prog_path, tag, line } => EventView::ChildWrote {
                pid: *pid,
                prog_path: prog_path@,
                tag: *tag,
                line: line@,
            },
            Event::FdClosed { pid, prog_path, tag } => EventView::FdClosed {
                pid: *pid,
                prog_path: prog_path@,
                tag: *tag,
            },
            Event::SignalReceived { signal } => EventView::SignalReceived { signal: *signal },
        }
    }
}

} // verus!
