//! How an event is put into words for a terminal: on which of the two
//! terminal streams it is announced, and the names of things.

use crate::childout::FdTag;
use crate::event::{Event, EventView};
use crate::signal::Signal;
use vstd::prelude::*;

verus! {

impl FdTag {
    /// The name of the pipe.
    pub open spec fn label(self) -> Seq<char> {
        match self {
            FdTag::Stderr => "stderr"@,
            FdTag::Stdout => "stdout"@,
        }
    }

    /// The name of the pipe: `stderr` or `stdout`.
    pub fn name(self) -> (name: &'static str)
        ensures
            name@ == self.label(),
    {
        match self {
            FdTag::Stderr => "stderr",
            FdTag::Stdout => "stdout",
        }
    }
}

impl Signal {
    /// The words for the signal.
    pub open spec fn words(self) -> Seq<char> {
        match self {
            Signal::Hangup => "hangup (SIGHUP)"@,
            Signal::Interrupt => "interrupt (SIGINT)"@,
            Signal::Terminate => "terminate (SIGTERM)"@,
        }
    }

    /// The words for the signal: what it asks for, and its name.
    pub fn describe(self) -> (words: &'static str)
        ensures
            words@ == self.words(),
    {
        match self {
            Signal::Hangup => "hangup (SIGHUP)",
            Signal::Interrupt => "interrupt (SIGINT)",
            Signal::Terminate => "terminate (SIGTERM)",
        }
    }
}

impl EventView {
    /// The terminal stream on which the event is announced: a line that a
    /// child wrote to its standard error goes to standard error, everything
    /// else to standard output.
    pub open spec fn channel(self) -> FdTag {
        match self {
            EventView::ChildWrote { tag, .. } => tag,
            _ => FdTag::Stdout,
        }
    }
}

impl Event {
    /// The terminal stream on which the event is announced.
    pub fn channel(&self) -> (tag: FdTag)
        ensures
            tag == self@.channel(),
    {
        match self {
            Event::ChildWrote { tag, .. } => *tag,
            _ => FdTag::Stdout,
        }
    }
}

} // verus!
