//! What passes between the multiplexer and whoever drives it.
//!
//! The multiplexer hands out a [`Request`]; the driver carries it out on the
//! operating system's resources and answers with a [`Reply`].

use crate::event::{Event, EventView};
use crate::pid::Pid;
use crate::status::ExitStatus;
use vstd::prelude::*;

verus! {

/// Names a resource that the driver owns and the poller can watch.
#[derive(Debug, Clone, Copy, PartialEq, Eq, Structural)]
pub enum Handle {
    /// The read end of a captured pipe, by its descriptor number.
    Pipe(i32),
    /// The descriptor that becomes readable when a child has ended.
    Reaper,
    /// The descriptor that becomes readable when a reported signal arrived.
    Signals,
}

/// A resource together with the token under which the poller is to report
/// its readiness.
#[derive(Debug, Clone, Copy, PartialEq, Eq, Structural)]
pub struct Registration {
    pub source: Handle,
    pub token: usize,
}

/// Why the multiplexer cannot go on.
#[derive(Debug, Clone, Copy, PartialEq, Eq, Structural)]
pub enum Fault {
    /// Polling failed, and not because it was interrupted.
    Poll,
    /// Reading a pipe failed, and not because it was interrupted or would
    /// block.
    Read,
    /// The poller reported a token under which no source is registered.
    UnknownToken(usize),
    /// A signal was pending that is none of those reported.
    UnexpectedSignal(i32),
    /// A child wrote a line that is not valid UTF-8.
    InvalidUtf8,
    /// The reply does not answer anything the multiplexer is waiting for.
    UnexpectedReply,
}

/// What the driver is to do next.
#[derive(Debug)]
pub enum Request {
    /// Block in the poller until a registered resource is readable; answer
    /// with the tokens it reported.
    Poll,
    /// Take the pending child-termination notifications off their descriptor
    /// and try a non-blocking wait on every live child.
    Reap,
    /// Read from the pipe with this descriptor number, without blocking.
    Read { fd: i32 },
    /// Take a snapshot of the reported signals that are pending.
    Snapshot,
    /// Arm the resource again, under the given token.
    Reregister(Registration),
    /// Take the resource away from the poller and release it.
    Deregister(Handle),
    /// Hand the event to the user.
    Deliver(Event),
    /// Give up.
    Fault(Fault),
}

/// A request as contracts see it.
pub enum RequestView {
    Poll,
    Reap,
    Read { fd: i32 },
    Snapshot,
    Reregister(Registration),
    Deregister(Handle),
    Deliver(EventView),
    Fault(Fault),
}

impl View for Request {
    type V = RequestView;

    open spec fn view(&self) -> RequestView {
        match self {
            Request::Poll => RequestView::Poll,
            Request::Reap => RequestView::Reap,
            Request::Read { fd } => RequestView::Read { fd: *fd },
            Request::Snapshot => RequestView::Snapshot,
            Request::Reregister(r) => RequestView::Reregister(*r),
            Request::Deregister(h) => RequestView::Deregister(*h),
            Request::Deliver(e) => RequestView::Deliver(e@),
            Request::Fault(f) => RequestView::Fault(*f),
        }
    }
}

impl RequestView {
    /// The event that the request hands to the user, if it hands one.
    pub open spec fn event(self) -> Option<EventView> {
        match self {
            RequestView::Deliver(e) => Some(e),
            _ => None,
        }
    }
}

/// What the driver found when it carried out a request.
#[derive(Debug)]
pub enum Reply {
    /// Nothing to report: the request is done, or none was outstanding.
    Resume,
    /// The poller reported these tokens.
    Ready(Vec<usize>),
    /// Whether a child-termination notification was pending, and the children
    /// that a non-blocking wait found ended, each with its status.
    Reaped { signalled: bool, exits: Vec<(Pid, ExitStatus)> },
    /// The bytes that a read returned. None at all means that every writer
    /// has closed the pipe.
    Bytes(Vec<u8>),
    /// The numbers of the signals that were pending.
    Snapshot(Vec<i32>),
    /// The poll or the read was interrupted by a signal.
    Interrupted,
    /// The read found nothing to read yet.
    WouldBlock,
    /// The poll or the read failed for another reason.
    Failed,
}

/// A reply as contracts see it.
pub enum ReplyView {
    Resume,
    Ready(Seq<usize>),
    Reaped { signalled: bool, exits: Seq<(Pid, ExitStatus)> },
    Bytes(Seq<u8>),
    Snapshot(Seq<i32>),
    Interrupted,
    WouldBlock,
    Failed,
}

impl View for Reply {
    type V = ReplyView;

    open spec fn view(&self) -> ReplyView {
        match self {
            Reply::Resume => ReplyView::Resume,
            Reply::Ready(tokens) => ReplyView::Ready(tokens@),
            Reply::Reaped { signalled, exits } => ReplyView::Reaped {
                signalled: *signalled,
                exits: exits@,
            },
            Reply::Bytes(bytes) => ReplyView::Bytes(bytes@),
            Reply::Snapshot(raw) => ReplyView::Snapshot(raw@),
            Reply::Interrupted => ReplyView::Interrupted,
            Reply::WouldBlock => ReplyView::WouldBlock,
            Reply::Failed => ReplyView::Failed,
        }
    }
}

} // verus!
